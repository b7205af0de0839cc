//! POSIX permission-bits formatting.
//!
//! Produces a 9-character `rwxrwxrwx` string (no leading file-type char, as
//! colorls prints it). Setuid/setgid/sticky are folded into the
//! corresponding exec bit per `ls(1)`: `s`/`S` and `t`/`T`.

use vstd::prelude::*;

use crate::text::push_char;

verus! {

/// The three characters for one permission triplet: `rwx` holds the bits in
/// its low three bits; `special` folds setuid/setgid/sticky into the exec
/// position using `ch` (lower case when executable, upper case otherwise).
pub open spec fn triplet_spec(rwx: u32, special: bool, ch: char) -> Seq<char> {
    let r = if rwx & 4 == 0 { '-' } else { 'r' };
    let w = if rwx & 2 == 0 { '-' } else { 'w' };
    let x = if special {
        if rwx & 1 == 0 {
            if ch == 's' { 'S' } else { 'T' }
        } else {
            ch
        }
    } else if rwx & 1 == 0 {
        '-'
    } else {
        'x'
    };
    seq![r, w, x]
}

/// The 9-character permission string of `mode`.
pub open spec fn mode_string(m: u32) -> Seq<char> {
    triplet_spec(m >> 6, m & 0o4000 != 0, 's') + triplet_spec(m >> 3, m & 0o2000 != 0, 's')
        + triplet_spec(m, m & 0o1000 != 0, 't')
}

/// Formats the permission bits of a raw `st_mode` value.
pub fn format_mode(mode: u32) -> (r: String)
    ensures
        r@ == mode_string(mode),
        r@.len() == 9,
{
    let mut s = String::new();
    triplet(&mut s, mode >> 6, mode & 0o4000 != 0, 's');
    triplet(&mut s, mode >> 3, mode & 0o2000 != 0, 's');
    triplet(&mut s, mode, mode & 0o1000 != 0, 't');
    assert(s@ =~= mode_string(mode));
    s
}

fn triplet(out: &mut String, rwx: u32, special: bool, ch: char)
    requires
        ch == 's' || ch == 't',
    ensures
        final(out)@ == old(out)@ + triplet_spec(rwx, special, ch),
{
    let r = if rwx & 4 == 0 { '-' } else { 'r' };
    let w = if rwx & 2 == 0 { '-' } else { 'w' };
    let x = if special {
        if rwx & 1 == 0 {
            if ch == 's' { 'S' } else { 'T' }
        } else {
            ch
        }
    } else if rwx & 1 == 0 {
        '-'
    } else {
        'x'
    };
    push_char(out, r);
    push_char(out, w);
    push_char(out, x);
    assert(out@ =~= old(out)@ + triplet_spec(rwx, special, ch));
}

/// Theme key for one mode-string character.
pub open spec fn color_key_spec(c: char) -> Seq<char> {
    if c == 'r' {
        "read"@
    } else if c == 'w' {
        "write"@
    } else if c == '-' {
        "no_access"@
    } else if c == 'x' || c == 's' || c == 'S' || c == 't' || c == 'T' {
        "exec"@
    } else {
        "normal"@
    }
}

/// Map a single mode-string char to a Theme color key.
pub fn color_key_for_char(c: char) -> (r: &'static str)
    ensures
        r@ == color_key_spec(c),
{
    proof {
        reveal_strlit("read");
        reveal_strlit("write");
        reveal_strlit("no_access");
        reveal_strlit("exec");
        reveal_strlit("normal");
    }
    match c {
        'r' => "read",
        'w' => "write",
        '-' => "no_access",
        'x' | 's' | 'S' | 't' | 'T' => "exec",
        _ => "normal",
    }
}

} // verus!
