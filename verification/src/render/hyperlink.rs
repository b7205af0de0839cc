//! OSC-8 terminal hyperlink wrapping.
//!
//! Format: `ESC ]8;;URI ESC \ TEXT ESC ]8;; ESC \`. Off when stdout is not a
//! terminal or `TERM=dumb` under `auto`, as `ls --hyperlink=auto` does.

use vstd::prelude::*;
use vstd::string::StringSliceAdditionalSpecFns;

use crate::options::HyperlinkMode;
use crate::term::TermEnv;
use crate::text::{hex_digit, hex_upper, owned, push_char, push_str};

verus! {

/// Whether hyperlinks are emitted under `mode` in `env`.
pub open spec fn links_enabled(mode: HyperlinkMode, env: TermEnv) -> bool {
    match mode {
        HyperlinkMode::Off | HyperlinkMode::Never => false,
        HyperlinkMode::Always => true,
        HyperlinkMode::Auto => !env.term_is_dumb() && env.stdout_is_terminal,
    }
}

/// Bytes copied into a URI unencoded: ASCII letters, digits, `/-_.~`.
pub open spec fn uri_safe(b: u8) -> bool {
    (0x41 <= b && b <= 0x5a) || (0x61 <= b && b <= 0x7a) || (0x30 <= b && b <= 0x39) || b == 0x2f
        || b == 0x2d || b == 0x5f || b == 0x2e || b == 0x7e
}

/// One byte of a URI path: itself when safe, `%XX` (upper-case hex)
/// otherwise.
pub open spec fn encode_byte(b: u8) -> Seq<char> {
    if uri_safe(b) {
        seq![b as char]
    } else {
        seq!['%', hex_upper((b / 16) as nat), hex_upper((b % 16) as nat)]
    }
}

/// The percent-encoding of a byte sequence.
pub open spec fn encode_bytes(bs: Seq<u8>) -> Seq<char>
    decreases bs.len(),
{
    if bs.len() == 0 {
        Seq::empty()
    } else {
        encode_bytes(bs.drop_last()) + encode_byte(bs.last())
    }
}

/// `file://` followed by the percent-encoded UTF-8 bytes of the path.
pub open spec fn file_uri(p: &str) -> Seq<char> {
    "file://"@ + encode_bytes(p.spec_bytes())
}

/// `text` wrapped in an OSC-8 link to `path` when `mode` allows it in
/// `env`; `path` is the canonical absolute path of the entry, or the path
/// as given when it cannot be resolved.
pub fn wrap(text: &str, path: &str, mode: HyperlinkMode, env: &TermEnv) -> (r: String)
    ensures
        !links_enabled(mode, *env) ==> r@ == text@,
        links_enabled(mode, *env) ==> r@ == "\x1b]8;;"@ + file_uri(path) + "\x1b\\"@ + text@
            + "\x1b]8;;\x1b\\"@,
{
    if !enabled(mode, env) {
        return owned(text);
    }
    let uri = path_to_file_uri(path);
    let mut out = owned("\x1b]8;;");
    push_str(&mut out, uri.as_str());
    push_str(&mut out, "\x1b\\");
    push_str(&mut out, text);
    push_str(&mut out, "\x1b]8;;\x1b\\");
    out
}

/// Whether hyperlinks are emitted.
pub fn enabled(mode: HyperlinkMode, env: &TermEnv) -> (r: bool)
    ensures
        r == links_enabled(mode, *env),
{
    match mode {
        HyperlinkMode::Off | HyperlinkMode::Never => false,
        HyperlinkMode::Always => true,
        HyperlinkMode::Auto => !env.is_dumb_terminal() && env.stdout_is_terminal,
    }
}

/// Best-effort file URI: percent-encodes bytes outside a small safe set.
pub fn path_to_file_uri(p: &str) -> (r: String)
    ensures
        r@ == file_uri(p),
{
    let bytes = p.as_bytes();
    let mut out = owned("file://");
    let ghost start = out@;
    let mut i: usize = 0;
    while i < bytes.len()
        invariant
            i <= bytes@.len(),
            bytes@ == p.spec_bytes(),
            start == "file://"@,
            out@ == start + encode_bytes(bytes@.take(i as int)),
        decreases bytes.len() - i,
    {
        let b = bytes[i];
        if (0x41 <= b && b <= 0x5a) || (0x61 <= b && b <= 0x7a) || (0x30 <= b && b <= 0x39) || b
            == 0x2f || b == 0x2d || b == 0x5f || b == 0x2e || b == 0x7e {
            push_char(&mut out, b as char);
        } else {
            push_char(&mut out, '%');
            push_char(&mut out, hex_digit(b / 16));
            push_char(&mut out, hex_digit(b % 16));
        }
        assert(bytes@.take(i + 1).drop_last() =~= bytes@.take(i as int));
        i = i + 1;
        assert(out@ =~= start + encode_bytes(bytes@.take(i as int)));
    }
    assert(bytes@.take(bytes@.len() as int) =~= bytes@);
    out
}

/// A character a file URI carries as itself: an ASCII letter or digit, or
/// one of `/ - _ . ~`.
pub open spec fn plain_uri_char(c: char) -> bool {
    ('A' <= c && c <= 'Z') || ('a' <= c && c <= 'z') || ('0' <= c && c <= '9') || c == '/' || c
        == '-' || c == '_' || c == '.' || c == '~'
}

/// The value of an upper-case hexadecimal digit.
pub open spec fn hex_value(c: char) -> int {
    if '0' <= c && c <= '9' {
        c as int - '0' as int
    } else if 'A' <= c && c <= 'F' {
        c as int - 'A' as int + 10
    } else {
        0
    }
}

/// Percent-decoding, read from the end: `%XY` is the byte `0xXY`, any other
/// character stands for its own code as a byte.
pub open spec fn percent_decode(s: Seq<char>) -> Seq<u8>
    decreases s.len(),
{
    if s.len() == 0 {
        Seq::empty()
    } else if s.len() >= 3 && s[s.len() - 3] == '%' {
        percent_decode(s.take(s.len() - 3)).push(
            (hex_value(s[s.len() - 2]) * 16 + hex_value(s[s.len() - 1])) as u8,
        )
    } else {
        percent_decode(s.drop_last()).push(s.last() as u8)
    }
}

proof fn lemma_safe_iff_plain(b: u8)
    ensures
        uri_safe(b) <==> plain_uri_char(b as char),
        (b as char) as u8 == b,
        b as char != '%' || b == 0x25,
{
}

proof fn lemma_hex_round_trip(n: nat)
    requires
        n < 16,
    ensures
        hex_value(hex_upper(n)) == n,
        hex_upper(n) != '%',
        plain_uri_char(hex_upper(n)),
{
}

/// The last two characters of an encoding are never `%`.
proof fn lemma_encoding_tail(bs: Seq<u8>)
    ensures
        encode_bytes(bs).len() >= 1 ==> encode_bytes(bs).last() != '%',
        encode_bytes(bs).len() >= 2 ==> encode_bytes(bs)[encode_bytes(bs).len() - 2] != '%',
    decreases bs.len(),
{
    if bs.len() > 0 {
        let b = bs.last();
        lemma_encoding_tail(bs.drop_last());
        lemma_safe_iff_plain(b);
        lemma_hex_round_trip((b / 16) as nat);
        lemma_hex_round_trip((b % 16) as nat);
        let p = encode_bytes(bs.drop_last());
        let s = encode_bytes(bs);
        assert(s == p + encode_byte(b));
        if uri_safe(b) {
            if s.len() >= 2 {
                assert(s[s.len() - 2] == p.last());
            }
        }
    }
}

/// A file URI spells its path safely: after `file://` it holds only ASCII
/// letters, digits, `/ - _ . ~` and `%` (so no raw `#`, `?`, space or
/// non-ASCII character), and every `%` starts an escape of two upper-case
/// hexadecimal digits.
pub proof fn lemma_file_uri_chars_are_safe(bs: Seq<u8>)
    ensures
        forall|i: int|
            0 <= i < encode_bytes(bs).len() ==> plain_uri_char(#[trigger] encode_bytes(bs)[i])
                || encode_bytes(bs)[i] == '%',
        forall|i: int|
            0 <= i < encode_bytes(bs).len() && #[trigger] encode_bytes(bs)[i] == '%' ==> i + 2
                < encode_bytes(bs).len() && hex_upper_char(encode_bytes(bs)[i + 1])
                && hex_upper_char(encode_bytes(bs)[i + 2]),
    decreases bs.len(),
{
    if bs.len() > 0 {
        let b = bs.last();
        lemma_file_uri_chars_are_safe(bs.drop_last());
        lemma_safe_iff_plain(b);
        lemma_hex_round_trip((b / 16) as nat);
        lemma_hex_round_trip((b % 16) as nat);
        let p = encode_bytes(bs.drop_last());
        let s = encode_bytes(bs);
        assert(s == p + encode_byte(b));
        assert forall|i: int| 0 <= i < s.len() implies plain_uri_char(#[trigger] s[i]) || s[i]
            == '%' by {
            if i < p.len() {
                assert(s[i] == p[i]);
            }
        }
        assert forall|i: int| 0 <= i < s.len() && #[trigger] s[i] == '%' implies i + 2 < s.len()
            && hex_upper_char(s[i + 1]) && hex_upper_char(s[i + 2]) by {
            if i < p.len() {
                assert(s[i] == p[i]);
                assert(s[i + 1] == p[i + 1]);
                assert(s[i + 2] == p[i + 2]);
            }
        }
    }
}

/// An upper-case hexadecimal digit.
pub open spec fn hex_upper_char(c: char) -> bool {
    ('0' <= c && c <= '9') || ('A' <= c && c <= 'F')
}

/// Decoding a file URI's path gives back exactly the path's bytes.
pub proof fn lemma_file_uri_decodes_to_path(bs: Seq<u8>)
    ensures
        percent_decode(encode_bytes(bs)) == bs,
    decreases bs.len(),
{
    if bs.len() > 0 {
        let b = bs.last();
        let d = bs.drop_last();
        lemma_file_uri_decodes_to_path(d);
        lemma_encoding_tail(d);
        lemma_safe_iff_plain(b);
        lemma_hex_round_trip((b / 16) as nat);
        lemma_hex_round_trip((b % 16) as nat);
        let p = encode_bytes(d);
        let s = encode_bytes(bs);
        assert(s == p + encode_byte(b));
        if uri_safe(b) {
            assert(s.drop_last() =~= p);
            if s.len() >= 3 {
                assert(s[s.len() - 3] == p[p.len() - 2]);
            }
        } else {
            assert(s.take(s.len() - 3) =~= p);
            assert((b / 16) * 16 + b % 16 == b);
        }
        assert(percent_decode(s) =~= bs);
    }
}

/// A path made only of ASCII letters, digits and `/ - _ . ~` is its own
/// URI path: no byte of it is escaped.
pub proof fn lemma_plain_paths_are_copied(bs: Seq<u8>)
    requires
        forall|i: int| 0 <= i < bs.len() ==> plain_uri_char(#[trigger] bs[i] as char),
    ensures
        encode_bytes(bs) == bs.map_values(|b: u8| b as char),
    decreases bs.len(),
{
    if bs.len() > 0 {
        let d = bs.drop_last();
        assert forall|i: int| 0 <= i < d.len() implies plain_uri_char(#[trigger] d[i] as char) by {
            assert(d[i] == bs[i]);
        }
        lemma_plain_paths_are_copied(d);
        lemma_safe_iff_plain(bs.last());
        assert(plain_uri_char(bs[bs.len() - 1] as char));
        assert(encode_bytes(bs) =~= bs.map_values(|b: u8| b as char));
    }
}

} // verus!
