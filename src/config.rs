//! Settings that the server reads at start: the republish policy, the TLS
//! and HLS sections, and the text helpers that the option parser uses.
use vstd::prelude::*;
use vstd::slice::slice_subrange;
use vstd::string::{StrSliceExecFns, StringExecFns};

verus! {

/// What happens when a second publisher asks for an application that is
/// already being published to.
#[derive(Clone, Copy, Debug, PartialEq, Eq, Structural)]
pub enum RepublishAction {
    /// Disconnect the current publisher and let the new one in.
    Replace,
    /// Refuse the new publisher.
    Deny,
}

/// Why a setting could not be read.
#[derive(Clone, Debug, PartialEq, Eq)]
pub enum ConfigError {
    ParseError { what: String, message: String },
}

pub open spec fn republish_action_of(s: Seq<char>) -> Option<RepublishAction> {
    if s == seq!['r', 'e', 'p', 'l', 'a', 'c', 'e'] {
        Some(RepublishAction::Replace)
    } else if s == seq!['d', 'e', 'n', 'y'] {
        Some(RepublishAction::Deny)
    } else {
        None
    }
}

impl RepublishAction {
    /// Reads `replace` or `deny`.
    pub fn from_str(s: &str) -> (r: Result<RepublishAction, ConfigError>)
        ensures
            r is Ok <==> republish_action_of(s@) is Some,
            r matches Ok(a) ==> republish_action_of(s@) == Some(a),
            r matches Err(ConfigError::ParseError { what, message }) ==> what@ == "RepublishAction"@
                && message@ == "'"@ + s@ + "' not valid"@,
    {
        let given = String::from_str(s);
        let replace = String::from_str("replace");
        let deny = String::from_str("deny");
        proof {
            reveal_strlit("replace");
            reveal_strlit("deny");
            assert(replace@ =~= seq!['r', 'e', 'p', 'l', 'a', 'c', 'e']);
            assert(deny@ =~= seq!['d', 'e', 'n', 'y']);
        }
        if given == replace {
            Ok(RepublishAction::Replace)
        } else if given == deny {
            Ok(RepublishAction::Deny)
        } else {
            let mut message = String::from_str("'");
            message.append(s);
            message.append("' not valid");
            Err(ConfigError::ParseError { what: String::from_str("RepublishAction"), message })
        }
    }
}

/// The TLS section: where the PKCS#12 certificate is and its password.
#[derive(Clone, Debug)]
pub struct Tls {
    pub cert_path: Option<String>,
    pub cert_password: String,
    pub enabled: bool,
}

/// The HLS section: the directory that holds one directory per application.
#[derive(Clone, Debug)]
pub struct Hls {
    pub root_dir: String,
    pub enabled: bool,
}

/// What `char::to_uppercase` gives for a character.
pub uninterp spec fn upper_of(c: char) -> Seq<char>;

/// The characters of the string, in order.
fn chars_of(s: &str) -> (r: Vec<char>)
    ensures
        r@ == s@,
{
    let n = s.unicode_len();
    let mut r: Vec<char> = Vec::new();
    let mut i: usize = 0;
    while i < n
        invariant
            i <= n,
            n == s@.len(),
            r@ == s@.take(i as int),
        decreases n - i,
    {
        r.push(s.get_char(i));
        assert(s@.take(i as int + 1) =~= s@.take(i as int).push(s@[i as int]));
        i = i + 1;
    }
    assert(s@.take(n as int) =~= s@);
    r
}

/// Relies on `char::to_uppercase`: the upper-case mapping of one character.
#[verifier::external_body]
fn char_to_upper(c: char) -> (r: String)
    ensures
        r@ == upper_of(c),
{
    c.to_uppercase().collect()
}

/// Relies on collecting characters into a `String`: the same characters.
#[verifier::external_body]
fn string_of_chars(v: &[char]) -> (r: String)
    ensures
        r@ == v@,
{
    v.iter().collect()
}

pub open spec fn capitalized(s: Seq<char>) -> Seq<char> {
    if s.len() == 0 {
        s
    } else {
        upper_of(s[0]) + s.skip(1)
    }
}

/// The string with its first character in upper case.
pub fn capitalize(string: &str) -> (r: String)
    ensures
        r@ == capitalized(string@),
{
    let chars = chars_of(string);
    if chars.len() == 0 {
        return String::new();
    }
    let mut r = char_to_upper(chars[0]);
    let rest = string_of_chars(slice_subrange(chars.as_slice(), 1, chars.len()));
    r.append(rest.as_str());
    r
}

/// The application name and stream key of an `app:key` argument: the text
/// before the first colon and the text after the last one.
pub open spec fn permitted_stream_of(s: Seq<char>) -> (Seq<char>, Seq<char>) {
    let first = first_colon(s, 0);
    let last = last_colon(s, s.len() as int);
    (s.take(first), s.skip(if last < s.len() { last + 1 } else { 0 }))
}

/// Index of the first colon at or after `i`, or the length if none.
pub open spec fn first_colon(s: Seq<char>, i: int) -> int
    decreases s.len() - i,
{
    if i >= s.len() || i < 0 {
        s.len() as int
    } else if s[i] == ':' {
        i
    } else {
        first_colon(s, i + 1)
    }
}

/// Index of the last colon before `i`, or the length if none.
pub open spec fn last_colon(s: Seq<char>, i: int) -> int
    decreases i,
{
    if i <= 0 || i > s.len() {
        s.len() as int
    } else if s[i - 1] == ':' {
        i - 1
    } else {
        last_colon(s, i - 1)
    }
}

/// Splits an `app:key` argument into the application name and the key.
pub fn parse_permitted_stream(s: &str) -> (r: (String, String))
    ensures
        (r.0@, r.1@) == permitted_stream_of(s@),
{
    let chars = chars_of(s);
    let n = chars.len();
    let mut first: usize = 0;
    while first < n && chars[first] != ':'
        invariant
            first <= n,
            n == chars@.len(),
            chars@ == s@,
            first_colon(s@, first as int) == first_colon(s@, 0),
        decreases n - first,
    {
        first = first + 1;
    }
    let mut last: usize = n;
    let mut found = false;
    while last > 0 && !found
        invariant
            last <= n,
            n == chars@.len(),
            chars@ == s@,
            !found ==> last_colon(s@, last as int) == last_colon(s@, n as int),
            found ==> last > 0 && last_colon(s@, n as int) == last - 1,
        decreases last, if found { 0int } else { 1int },
    {
        if chars[last - 1] == ':' {
            found = true;
        } else {
            last = last - 1;
        }
    }
    let start = if found { last } else { 0 };
    let app = string_of_chars(slice_subrange(chars.as_slice(), 0, first));
    let key = string_of_chars(slice_subrange(chars.as_slice(), start, n));
    proof {
        assert(app@ =~= s@.take(first as int));
        assert(key@ =~= s@.skip(start as int));
    }
    (app, key)
}

} // verus!
