//! Checks on names and inputs, and the derivation of a default service name.

use vstd::prelude::*;
use crate::error::ValidationError;
use crate::text::{
    after_last, after_last_of, alnum, ascii_alnum, lemma_before_first_prefix, before_first, before_first_of, chars_of, env_assignment,
    is_alnum, is_env_assignment, is_whitespace_char, is_ws, split_words, string_of, views, words,
};

verus! {

/// Longest service name, in characters.
pub const MAX_NAME_LENGTH: usize = 64;

/// A character allowed in a service name.
pub open spec fn name_char(c: char) -> bool {
    alnum(c) || c == '_' || c == '-'
}

/// The verdict on a name of characters `s`: its length in characters is
/// checked first, then its characters.
pub open spec fn name_verdict(s: Seq<char>) -> Result<(), ValidationError> {
    if s.len() == 0 || s.len() > MAX_NAME_LENGTH {
        Err(ValidationError::InvalidNameLength(s.len() as usize))
    } else if forall|i: int| 0 <= i < s.len() ==> name_char(#[trigger] s[i]) {
        Ok(())
    } else {
        Err(ValidationError::InvalidNameCharacters)
    }
}

/// Checks that `name` has 1 to 64 characters, each a letter, a digit, `_`
/// or `-`.
pub fn validate_service_name(name: &str) -> (r: Result<(), ValidationError>)
    ensures
        r == name_verdict(name@),
{
    let n = name.unicode_len();
    if n == 0 || n > MAX_NAME_LENGTH {
        return Err(ValidationError::InvalidNameLength(n));
    }
    let mut i: usize = 0;
    while i < n
        invariant
            n == name@.len(),
            0 < n <= MAX_NAME_LENGTH,
            i <= n,
            forall|j: int| 0 <= j < i ==> name_char(#[trigger] name@[j]),
        decreases n - i,
    {
        let c = name.get_char(i);
        if !(is_alnum(c) || c == '_' || c == '-') {
            assert(!name_char(name@[i as int]));
            return Err(ValidationError::InvalidNameCharacters);
        }
        i = i + 1;
    }
    Ok(())
}

/// Whether `s` holds something besides whitespace.
pub open spec fn has_content(s: Seq<char>) -> bool {
    exists|i: int| 0 <= i < s.len() && !is_ws(#[trigger] s[i])
}

/// Checks that `input` is not empty once surrounding whitespace is removed.
pub fn validate_not_empty(input: &str) -> (r: Result<(), ValidationError>)
    ensures
        r == (if has_content(input@) { Ok(()) } else { Err(ValidationError::EmptyInput) }),
{
    let n = input.unicode_len();
    let mut i: usize = 0;
    while i < n
        invariant
            n == input@.len(),
            i <= n,
            forall|j: int| 0 <= j < i ==> is_ws(#[trigger] input@[j]),
        decreases n - i,
    {
        if !is_whitespace_char(input.get_char(i)) {
            return Ok(());
        }
        i = i + 1;
    }
    Err(ValidationError::EmptyInput)
}

/// The words of a command line that are not variable assignments, wherever
/// they stand.
pub open spec fn command_words(s: Seq<char>) -> Seq<Seq<char>> {
    words(s).filter(|w: Seq<char>| !is_env_assignment(w))
}

pub open spec fn is_flag(w: Seq<char>) -> bool {
    w.len() > 0 && w[0] == '-'
}

/// The first word that is not a flag.
pub open spec fn first_non_flag(ws: Seq<Seq<char>>) -> Option<Seq<char>>
    decreases ws.len(),
{
    if ws.len() == 0 {
        None
    } else if is_flag(ws[0]) {
        first_non_flag(ws.drop_first())
    } else {
        Some(ws[0])
    }
}

/// Package runners whose first non-flag argument names what runs.
pub open spec fn is_package_runner(e: Seq<char>) -> bool {
    e == "npx"@ || e == "bunx"@ || e == "pnpx"@
}

/// The word a name is taken from: the program's file name, or for a package
/// runner the package it runs.
pub open spec fn name_source(ws: Seq<Seq<char>>) -> Seq<char>
    recommends
        ws.len() > 0,
{
    let exe = after_last(ws[0], '/');
    if is_package_runner(exe) && ws.len() > 1 {
        match first_non_flag(ws.drop_first()) {
            Some(p) => p,
            None => exe,
        }
    } else {
        exe
    }
}

/// A package reference without its version suffix and scope prefix.
pub open spec fn package_name(src: Seq<char>) -> Seq<char> {
    let bare = before_first(src, '@');
    if bare.len() == 0 {
        before_first(after_last(src, '/'), '@')
    } else {
        bare
    }
}

/// The name characters of `s`, at most the first 64 of them.
pub open spec fn name_chars(s: Seq<char>) -> Seq<char> {
    let f = s.filter(|c: char| name_char(c));
    if f.len() <= MAX_NAME_LENGTH {
        f
    } else {
        f.take(MAX_NAME_LENGTH as int)
    }
}

/// The default service name for a command line.
pub open spec fn generated_name(command: Seq<char>) -> Seq<char> {
    let ws = command_words(command);
    if ws.len() == 0 {
        "service"@
    } else {
        let n = name_chars(package_name(name_source(ws)));
        if n.len() == 0 {
            "service"@
        } else {
            n
        }
    }
}

fn command_words_of(s: &Vec<char>) -> (r: Vec<Vec<char>>)
    ensures
        views(r@) == command_words(s@),
{
    let all = split_words(s);
    let ghost ws = views(all@);
    let ghost pred = |w: Seq<char>| !is_env_assignment(w);
    let mut r: Vec<Vec<char>> = Vec::new();
    let mut i: usize = 0;
    while i < all.len()
        invariant
            i <= all@.len(),
            ws == views(all@),
            ws == words(s@),
            pred == (|w: Seq<char>| !is_env_assignment(w)),
            views(r@) == ws.take(i as int).filter(pred),
        decreases all@.len() - i,
    {
        proof {
            reveal(Seq::filter);
            assert(ws.take(i + 1).drop_last() =~= ws.take(i as int));
            assert(ws.take(i + 1).last() == all@[i as int]@);
        }
        let keep = !env_assignment(&all[i]);
        if keep {
            let ghost r0 = views(r@);
            r.push(all[i].clone());
            assert(views(r@) =~= r0.push(all@[i as int]@));
        }
        i = i + 1;
    }
    assert(ws.take(ws.len() as int) =~= ws);
    r
}

fn first_non_flag_after_first(ws: &Vec<Vec<char>>) -> (r: Option<usize>)
    requires
        ws@.len() > 0,
    ensures
        match r {
            Some(k) => 1 <= k < ws@.len() && first_non_flag(views(ws@).drop_first()) == Some(ws@[k as int]@),
            None => first_non_flag(views(ws@).drop_first()) == None::<Seq<char>>,
        },
{
    let ghost v = views(ws@);
    let ghost n = v.len();
    assert(v.drop_first() =~= v.subrange(1, n as int));
    let mut i: usize = 1;
    while i < ws.len()
        invariant
            v == views(ws@),
            n == v.len(),
            1 <= i <= n,
            first_non_flag(v.drop_first()) == first_non_flag(v.subrange(i as int, n as int)),
        decreases n - i,
    {
        assert(v.subrange(i as int, n as int)[0] == ws@[i as int]@);
        if ws[i].len() > 0 && ws[i][0] == '-' {
            assert(v.subrange(i as int, n as int).drop_first() =~= v.subrange(i + 1, n as int));
            i = i + 1;
        } else {
            return Some(i);
        }
    }
    assert(v.subrange(i as int, n as int).len() == 0);
    None
}

fn same_chars(a: &Vec<char>, b: &str) -> (r: bool)
    ensures
        r == (a@ == b@),
{
    let t = string_of(a);
    crate::text::text_eq(t.as_str(), b)
}

fn name_chars_of(s: &Vec<char>) -> (r: Vec<char>)
    ensures
        r@ == name_chars(s@),
{
    let ghost pred = |c: char| name_char(c);
    let mut r: Vec<char> = Vec::new();
    let mut i: usize = 0;
    while i < s.len()
        invariant
            i <= s@.len(),
            pred == (|c: char| name_char(c)),
            r@ == (if s@.take(i as int).filter(pred).len() <= MAX_NAME_LENGTH {
                s@.take(i as int).filter(pred)
            } else {
                s@.take(i as int).filter(pred).take(MAX_NAME_LENGTH as int)
            }),
        decreases s@.len() - i,
    {
        let ghost f0 = s@.take(i as int).filter(pred);
        proof {
            reveal(Seq::filter);
            assert(s@.take(i + 1).drop_last() =~= s@.take(i as int));
            assert(s@.take(i + 1).last() == s@[i as int]);
        }
        let c = s[i];
        if is_alnum(c) || c == '_' || c == '-' {
            if r.len() < MAX_NAME_LENGTH {
                r.push(c);
                assert(r@ =~= f0.push(c));
            } else {
                proof {
                    assert(f0.push(c).take(MAX_NAME_LENGTH as int) =~= f0.take(MAX_NAME_LENGTH as int));
                    if f0.len() == MAX_NAME_LENGTH {
                        assert(f0.take(MAX_NAME_LENGTH as int) =~= f0);
                    }
                }
            }
        }
        i = i + 1;
    }
    assert(s@.take(s@.len() as int) =~= s@);
    r
}

fn default_name() -> (r: String)
    ensures
        r@ == "service"@,
{
    String::from_str("service")
}

/// Derives a valid default name from a command line: every `NAME=value`
/// word is skipped, the program's file name is used (or, for `npx`, `bunx`
/// and `pnpx`, the package it runs, without version or scope), characters
/// outside the name set are dropped, and at most 64 are kept. When nothing
/// is left the name is `service`.
pub fn generate_service_name(command: &str) -> (r: String)
    ensures
        r@ == generated_name(command@),
{
    let cs = chars_of(command);
    let ws = command_words_of(&cs);
    if ws.len() == 0 {
        return default_name();
    }
    let ghost v = views(ws@);
    let exe = after_last_of(&ws[0], '/');
    proof {
        reveal_strlit("npx");
        reveal_strlit("bunx");
        reveal_strlit("pnpx");
    }
    let runner = same_chars(&exe, "npx") || same_chars(&exe, "bunx") || same_chars(&exe, "pnpx");
    let source = if runner && ws.len() > 1 {
        match first_non_flag_after_first(&ws) {
            Some(k) => ws[k].clone(),
            None => exe,
        }
    } else {
        exe
    };
    assert(source@ == name_source(v));
    let bare = before_first_of(&source, '@');
    let package = if bare.len() == 0 {
        let tail = after_last_of(&source, '/');
        before_first_of(&tail, '@')
    } else {
        bare
    };
    let n = name_chars_of(&package);
    if n.len() == 0 {
        default_name()
    } else {
        string_of(&n)
    }
}

/// Characters a POSIX shell reads literally outside quotes.
pub open spec fn shell_plain(c: char) -> bool {
    ascii_alnum(c) || c == '-' || c == '_' || c == '=' || c == '/' || c == ',' || c == '.' || c == '+'
}

/// How one character is written inside single quotes.
pub open spec fn quoted_char(c: char) -> Seq<char> {
    if c == '\'' || c == '!' {
        seq!['\'', '\\', c, '\'']
    } else {
        seq![c]
    }
}

pub open spec fn quoted_body(s: Seq<char>) -> Seq<char>
    decreases s.len(),
{
    if s.len() == 0 {
        seq![]
    } else {
        quoted_body(s.drop_last()) + quoted_char(s.last())
    }
}

/// `s` as one shell word: unchanged when it is non-empty and all plain,
/// otherwise in single quotes with `'` and `!` each closed, escaped and reopened.
pub open spec fn shell_quoted(s: Seq<char>) -> Seq<char> {
    if s.len() > 0 && forall|i: int| 0 <= i < s.len() ==> shell_plain(#[trigger] s[i]) {
        s
    } else {
        seq!['\''] + quoted_body(s) + seq!['\'']
    }
}

/// Relies on `shell_escape::unix::escape`, which returns whitelisted text
/// as it is and otherwise quotes it as `shell_quoted` states.
#[verifier::external_body]
pub(crate) fn shell_quote(s: &str) -> (r: String)
    ensures
        r@ == shell_quoted(s@),
{
    shell_escape::unix::escape(std::borrow::Cow::Borrowed(s)).into_owned()
}

/// `input` quoted as one shell word; rejected when it holds a NUL.
pub fn sanitize_for_shell(input: &str) -> (r: Result<String, ValidationError>)
    ensures
        input@.contains('\0') ==> r == Err::<String, ValidationError>(ValidationError::NullByteInInput),
        !input@.contains('\0') ==> r is Ok && r->Ok_0@ == shell_quoted(input@),
{
    if crate::text::contains_char(input, '\0') {
        return Err(ValidationError::NullByteInInput);
    }
    Ok(shell_quote(input))
}

/// Reads a `KEY=VALUE` override, split at the first `=`.
pub fn parse_env_override(item: &str) -> (r: Result<(String, String), String>)
    ensures
        item@.contains('=') ==> r is Ok && r->Ok_0.0@ == before_first(item@, '=')
            && r->Ok_0.0@ + "="@ + r->Ok_0.1@ == item@,
        !item@.contains('=') ==> r is Err
            && r->Err_0@ == "Invalid environment variable format: "@ + item@ + ". Expected KEY=VALUE"@,
{
    let cs = chars_of(item);
    let key = before_first_of(&cs, '=');
    if key.len() == cs.len() {
        proof {
            lemma_before_first_prefix(cs@, '=');
        }
        return Err(String::from_str("Invalid environment variable format: ").concat(item).concat(". Expected KEY=VALUE"));
    }
    proof {
        lemma_before_first_prefix(cs@, '=');
        reveal_strlit("=");
    }
    let mut value: Vec<char> = Vec::new();
    let mut i: usize = key.len() + 1;
    while i < cs.len()
        invariant
            key@.len() < i <= cs@.len(),
            value@ == cs@.subrange(key@.len() as int + 1, i as int),
        decreases cs@.len() - i,
    {
        value.push(cs[i]);
        i = i + 1;
        assert(value@ =~= cs@.subrange(key@.len() as int + 1, i as int));
    }
    let k = string_of(&key);
    let v = string_of(&value);
    assert(k@ + "="@ + v@ =~= item@);
    Ok((k, v))
}

} // verus!
