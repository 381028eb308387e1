use unicode_segmentation::UnicodeSegmentation;
use vstd::prelude::*;
use vstd::string::StrSliceExecFns;

verus! {

/// The largest number of grapheme clusters a name may hold.
pub const MAX_NAME_GRAPHEMES: usize = 256;

/// Characters that may not appear in a name.
pub open spec fn is_forbidden(c: char) -> bool {
    c == '/' || c == '(' || c == ')' || c == '"' || c == '<' || c == '>' || c == '\\'
        || c == '{' || c == '}'
}

/// The characters with the Unicode `White_Space` property.
pub open spec fn is_white_space(c: char) -> bool {
    ('\u{9}' <= c && c <= '\u{d}') || c == ' ' || c == '\u{85}' || c == '\u{a0}'
        || c == '\u{1680}' || ('\u{2000}' <= c && c <= '\u{200a}') || c == '\u{2028}'
        || c == '\u{2029}' || c == '\u{202f}' || c == '\u{205f}' || c == '\u{3000}'
}

/// Every character of `s` is white space (true of the empty text).
pub open spec fn is_blank(s: Seq<char>) -> bool {
    forall|i: int| 0 <= i < s.len() ==> is_white_space(#[trigger] s[i])
}

/// Some character of `s` is forbidden in a name.
pub open spec fn has_forbidden(s: Seq<char>) -> bool {
    exists|i: int| 0 <= i < s.len() && is_forbidden(#[trigger] s[i])
}

/// The number of extended grapheme clusters in `s`, as `unicode-segmentation`
/// splits it.
pub uninterp spec fn grapheme_count(s: Seq<char>) -> nat;

/// Relies on `str::trim`: it removes leading and trailing `White_Space`
/// characters, so nothing is left exactly when every character is one.
#[verifier::external_body]
fn trim(s: &str) -> (r: &str)
    ensures
        r@.len() == 0 <==> is_blank(s@),
{
    s.trim()
}

/// Relies on `UnicodeSegmentation::graphemes(s, true).count()`: the number of
/// extended grapheme clusters.
#[verifier::external_body]
fn count_graphemes(s: &str) -> (r: usize)
    ensures
        r as nat == grapheme_count(s@),
{
    s.graphemes(true).count()
}

/// A subscriber name that has passed validation.
#[derive(Debug)]
pub struct SubscriberName {
    name: String,
}

impl View for SubscriberName {
    type V = Seq<char>;

    closed spec fn view(&self) -> Seq<char> {
        self.name@
    }
}

/// Whether `s` is an acceptable name.
pub open spec fn name_valid(s: Seq<char>) -> bool {
    !is_blank(s) && grapheme_count(s) <= MAX_NAME_GRAPHEMES && !has_forbidden(s)
}

fn contains_forbidden(s: &str) -> (r: bool)
    ensures
        r == has_forbidden(s@),
{
    let n = s.unicode_len();
    let mut i: usize = 0;
    while i < n
        invariant
            n == s@.len(),
            i <= n,
            forall|j: int| 0 <= j < i ==> !is_forbidden(#[trigger] s@[j]),
        decreases n - i,
    {
        let c = s.get_char(i);
        if c == '/' || c == '(' || c == ')' || c == '"' || c == '<' || c == '>' || c == '\\'
            || c == '{' || c == '}' {
            return true;
        }
        i += 1;
    }
    false
}

impl SubscriberName {
    /// Accepts a name that is not blank, holds at most 256 grapheme clusters
    /// and none of `/ ( ) " < > \ { }`. The checks are made in that order and
    /// the first that fails gives the error.
    pub fn parse(name: &str) -> (r: Result<SubscriberName, &'static str>)
        ensures
            r is Ok <==> name_valid(name@),
            r matches Ok(n) ==> n@ == name@,
            is_blank(name@) ==> r == Err::<SubscriberName, &str>("The name can't be empty"),
            !is_blank(name@) && grapheme_count(name@) > MAX_NAME_GRAPHEMES ==> r == Err::<
                SubscriberName,
                &str,
            >("The name can't be longer than 256 characters"),
            !is_blank(name@) && grapheme_count(name@) <= MAX_NAME_GRAPHEMES && has_forbidden(
                name@,
            ) ==> r == Err::<SubscriberName, &str>("The name contains forbidden characters"),
    {
        if trim(name).is_empty() {
            return Err("The name can't be empty");
        }
        if count_graphemes(name) > MAX_NAME_GRAPHEMES {
            return Err("The name can't be longer than 256 characters");
        }
        if contains_forbidden(name) {
            return Err("The name contains forbidden characters");
        }
        Ok(SubscriberName { name: name.to_owned() })
    }

    /// The name as text.
    pub fn as_str(&self) -> (r: &str)
        ensures
            r@ == self@,
    {
        self.name.as_str()
    }
}

} // verus!
