//! Domain values: identifiers, subscriber names and email addresses with
//! their validity rules.

use unicode_segmentation::UnicodeSegmentation;
use vstd::prelude::*;
use vstd::string::StrSliceExecFns;

verus! {

/// Identifier of a registered user: a UUID carried as its 128-bit value.
#[derive(Clone, Copy, PartialEq, Eq, Structural, Debug)]
pub struct UserId {
    pub value: u128,
}

/// Identifier of a subscriber: a UUID carried as its 128-bit value.
#[derive(Clone, Copy, PartialEq, Eq, Structural, Debug)]
pub struct SubscriberId {
    pub value: u128,
}

/// A fault reported by the external relational store; always surfaced as a
/// server error, never echoed to the client.
#[derive(Clone, Copy, PartialEq, Eq, Structural, Debug)]
pub struct StorageFault;

/// A fault reported by the external mail transport for one send.
#[derive(Clone, Copy, PartialEq, Eq, Structural, Debug)]
pub struct SendFault;

/// Character-wise string equality.
pub fn str_chars_eq(a: &str, b: &str) -> (r: bool)
    ensures
        r == (a@ == b@),
{
    let alen = a.unicode_len();
    let blen = b.unicode_len();
    if alen != blen {
        return false;
    }
    let mut i: usize = 0;
    while i < alen
        invariant
            i <= alen,
            alen == a@.len(),
            alen == b@.len(),
            forall|j: int| 0 <= j < i ==> a@[j] == b@[j],
        decreases alen - i,
    {
        if a.get_char(i) != b.get_char(i) {
            return false;
        }
        i = i + 1;
    }
    proof {
        assert(a@ =~= b@);
    }
    true
}

/// The Unicode `White_Space` code points, the characters that `str::trim`
/// removes.
pub open spec fn char_is_whitespace(c: char) -> bool {
    let n = c as u32;
    ||| n == 0x20
    ||| 0x09 <= n <= 0x0d
    ||| n == 0x85
    ||| n == 0xa0
    ||| n == 0x1680
    ||| 0x2000 <= n <= 0x200a
    ||| n == 0x2028
    ||| n == 0x2029
    ||| n == 0x202f
    ||| n == 0x205f
    ||| n == 0x3000
}

fn is_whitespace_char(c: char) -> (r: bool)
    ensures
        r == char_is_whitespace(c),
{
    let n = c as u32;
    n == 0x20 || (0x09 <= n && n <= 0x0d) || n == 0x85 || n == 0xa0 || n == 0x1680 || (0x2000 <= n
        && n <= 0x200a) || n == 0x2028 || n == 0x2029 || n == 0x202f || n == 0x205f || n == 0x3000
}

/// Characters never accepted in a subscriber name.
pub open spec fn char_is_forbidden(c: char) -> bool {
    ||| c == '/'
    ||| c == '('
    ||| c == ')'
    ||| c == '"'
    ||| c == '<'
    ||| c == '>'
    ||| c == '\\'
    ||| c == '{'
    ||| c == '}'
}

fn is_forbidden_char(c: char) -> (r: bool)
    ensures
        r == char_is_forbidden(c),
{
    c == '/' || c == '(' || c == ')' || c == '"' || c == '<' || c == '>' || c == '\\' || c == '{'
        || c == '}'
}

/// True when the string trims to nothing: every character is whitespace.
pub open spec fn all_whitespace(s: Seq<char>) -> bool {
    forall|i: int| 0 <= i < s.len() ==> char_is_whitespace(s[i])
}

/// Number of extended grapheme clusters of a string; what a reader perceives
/// as one character may be several `char`s.
pub uninterp spec fn grapheme_count(s: Seq<char>) -> nat;

/// Relies on unicode_segmentation's `UnicodeSegmentation::graphemes` with the
/// extended grapheme cluster rules: the number of clusters is a function of
/// the characters alone.
#[verifier::external_body]
fn count_graphemes(s: &str) -> (n: usize)
    ensures
        n == grapheme_count(s@),
{
    s.graphemes(true).count()
}

/// A subscriber name is accepted when it is not entirely whitespace, has at
/// most 256 grapheme clusters, and holds no forbidden character.
pub open spec fn valid_subscriber_name(s: Seq<char>) -> bool {
    &&& !all_whitespace(s)
    &&& grapheme_count(s) <= 256
    &&& forall|i: int| 0 <= i < s.len() ==> !char_is_forbidden(s[i])
}

/// A validated subscriber name.
pub struct SubscriberName(String);

impl View for SubscriberName {
    type V = Seq<char>;

    closed spec fn view(&self) -> Seq<char> {
        self.0@
    }
}

impl SubscriberName {
    pub fn inner(self) -> (r: String)
        ensures
            r@ == self@,
    {
        self.0
    }

    pub fn inner_ref(&self) -> (r: &str)
        ensures
            r@ == self@,
    {
        self.0.as_str()
    }

    /// Wraps a string already known to satisfy the name rules.
    pub fn parse(s: String) -> (r: SubscriberName)
        requires
            valid_subscriber_name(s@),
        ensures
            r@ == s@,
            valid_subscriber_name(r@),
    {
        SubscriberName(s)
    }

    /// Checks the name rules at run time; the rejected input is handed back.
    pub fn try_parse(s: String) -> (r: Result<SubscriberName, String>)
        ensures
            valid_subscriber_name(s@) ==> (r matches Ok(n) && n@ == s@),
            !valid_subscriber_name(s@) ==> (r matches Err(e) && e@ == s@),
    {
        if is_name_valid(s.as_str()) {
            Ok(SubscriberName::parse(s))
        } else {
            Err(s)
        }
    }
}

fn is_name_valid(s: &str) -> (r: bool)
    ensures
        r == valid_subscriber_name(s@),
{
    let len = s.unicode_len();
    let mut i: usize = 0;
    let mut all_ws = true;
    let mut any_forbidden = false;
    while i < len
        invariant
            i <= len,
            len == s@.len(),
            all_ws == (forall|j: int| 0 <= j < i ==> char_is_whitespace(s@[j])),
            any_forbidden == (exists|j: int| 0 <= j < i && char_is_forbidden(s@[j])),
        decreases len - i,
    {
        let c = s.get_char(i);
        if !is_whitespace_char(c) {
            all_ws = false;
        }
        if is_forbidden_char(c) {
            any_forbidden = true;
        }
        i = i + 1;
    }
    let too_long = count_graphemes(s) > 256;
    !all_ws && !too_long && !any_forbidden
}

/// Number of occurrences of a character in a string.
pub open spec fn count_char(s: Seq<char>, c: char) -> nat
    decreases s.len(),
{
    if s.len() == 0 {
        0
    } else {
        count_char(s.drop_last(), c) + if s.last() == c {
            1nat
        } else {
            0nat
        }
    }
}

/// An email address is accepted when it holds exactly one `@`, neither first
/// nor last, and no whitespace.
pub open spec fn valid_email(s: Seq<char>) -> bool {
    &&& s.len() >= 3
    &&& count_char(s, '@') == 1
    &&& s[0] != '@'
    &&& s[s.len() - 1] != '@'
    &&& forall|i: int| 0 <= i < s.len() ==> !char_is_whitespace(s[i])
}

/// A validated email address.
pub struct SubscriberEmail(String);

impl View for SubscriberEmail {
    type V = Seq<char>;

    closed spec fn view(&self) -> Seq<char> {
        self.0@
    }
}

impl SubscriberEmail {
    /// Checks the email rules at run time; the rejected input is handed back.
    pub fn parse(s: String) -> (r: Result<SubscriberEmail, String>)
        ensures
            valid_email(s@) ==> (r matches Ok(e) && e@ == s@),
            !valid_email(s@) ==> (r matches Err(m) && m@ == s@),
    {
        if is_email_valid(s.as_str()) {
            Ok(SubscriberEmail(s))
        } else {
            Err(s)
        }
    }

    pub fn as_str(&self) -> (r: &str)
        ensures
            r@ == self@,
    {
        self.0.as_str()
    }

    pub fn inner(self) -> (r: String)
        ensures
            r@ == self@,
    {
        self.0
    }
}

pub(crate) fn is_email_valid(s: &str) -> (r: bool)
    ensures
        r == valid_email(s@),
{
    let len = s.unicode_len();
    let mut i: usize = 0;
    let mut ats: usize = 0;
    let mut any_ws = false;
    while i < len
        invariant
            i <= len,
            len == s@.len(),
            ats == count_char(s@.take(i as int), '@'),
            ats <= i,
            any_ws == (exists|j: int| 0 <= j < i && char_is_whitespace(s@[j])),
        decreases len - i,
    {
        let c = s.get_char(i);
        proof {
            assert(s@.take(i + 1).drop_last() =~= s@.take(i as int));
            assert(s@.take(i + 1).last() == s@[i as int]);
        }
        if c == '@' {
            ats = ats + 1;
        }
        if is_whitespace_char(c) {
            any_ws = true;
        }
        i = i + 1;
    }
    proof {
        assert(s@.take(len as int) =~= s@);
    }
    if len < 3 || ats != 1 || any_ws {
        false
    } else {
        s.get_char(0) != '@' && s.get_char(len - 1) != '@'
    }
}

/// A signup request whose fields already passed validation.
pub struct NewSubscriber {
    pub name: SubscriberName,
    pub email: SubscriberEmail,
}

} // verus!
