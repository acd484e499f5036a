//! Paths: text made of segments that `/` separates.
//!
//! A path is matched on its UTF-8 bytes. `/` is one byte that occurs in no
//! other character, so what holds of the bytes holds of the characters.

use crate::text;
use crate::text::{bytes_equal, push_char, text_equal};
use vstd::prelude::*;
use vstd::string::*;

verus! {

/// The byte of `/`.
pub const SLASH: u8 = 0x2f;

/// Encoding is done character by character.
pub proof fn encode_concat(a: Seq<char>, b: Seq<char>)
    ensures
        vstd::utf8::encode_utf8(a + b) == vstd::utf8::encode_utf8(a) + vstd::utf8::encode_utf8(b),
    decreases a.len(),
{
    if a.len() == 0 {
        assert(a + b =~= b);
        assert(vstd::utf8::encode_utf8(a) + vstd::utf8::encode_utf8(b)
            =~= vstd::utf8::encode_utf8(b));
    } else {
        encode_concat(a.drop_first(), b);
        assert((a + b).drop_first() =~= a.drop_first() + b);
        assert(vstd::utf8::encode_utf8(a + b) =~= vstd::utf8::encode_utf8(a)
            + vstd::utf8::encode_utf8(b));
    }
}

/// The byte of `/` stands for `/` and for nothing else.
proof fn slash_byte(c: char)
    ensures
        c == '/' ==> vstd::utf8::encode_scalar(c as u32) == seq![SLASH],
        forall|i: int|
            0 <= i < vstd::utf8::encode_scalar(c as u32).len() && #[trigger]
            vstd::utf8::encode_scalar(c as u32)[i] == SLASH ==> c == '/',
        vstd::utf8::encode_scalar(c as u32).len() > 0,
{
    let s = c as u32;
    assert(s <= 0x7f ==> (s & 0x7f) as u8 == s as u8) by (bit_vector);
    assert(0xC0u8 | ((s >> 6) & 0x1F) as u8 != 0x2f) by (bit_vector);
    assert(0xE0u8 | ((s >> 12) & 0x0F) as u8 != 0x2f) by (bit_vector);
    assert(0xF0u8 | ((s >> 18) & 0x7) as u8 != 0x2f) by (bit_vector);
    assert(0x80u8 | (s & 0x3F) as u8 != 0x2f) by (bit_vector);
    assert(0x80u8 | ((s >> 6) & 0x3F) as u8 != 0x2f) by (bit_vector);
    assert(0x80u8 | ((s >> 12) & 0x3F) as u8 != 0x2f) by (bit_vector);
    assert(s <= 0x7f && (s & 0x7f) as u8 == 0x2f ==> s == 0x2f) by (bit_vector);
    if c == '/' {
        assert(s == 0x2f);
        assert(vstd::utf8::encode_scalar(s) =~= seq![SLASH]);
    }
}

/// Text has no `/` if and only if its bytes have none.
proof fn slash_free(s: Seq<char>)
    ensures
        (forall|i: int|
            0 <= i < vstd::utf8::encode_utf8(s).len() ==> #[trigger] vstd::utf8::encode_utf8(s)[i]
                != SLASH) == (forall|i: int| 0 <= i < s.len() ==> #[trigger] s[i] != '/'),
    decreases s.len(),
{
    if s.len() > 0 {
        let head = vstd::utf8::encode_scalar(s[0] as u32);
        let tail = s.drop_first();
        let rest = vstd::utf8::encode_utf8(tail);
        let all = vstd::utf8::encode_utf8(s);
        slash_byte(s[0]);
        slash_free(tail);
        assert(all == head + rest);
        if forall|i: int| 0 <= i < all.len() ==> #[trigger] all[i] != SLASH {
            assert forall|i: int| 0 <= i < rest.len() implies #[trigger] rest[i] != SLASH by {
                assert(all[head.len() + i] == rest[i]);
            }
            assert(all[0] == head[0]);
            assert forall|i: int| 0 <= i < s.len() implies #[trigger] s[i] != '/' by {
                if i > 0 {
                    assert(tail[i - 1] == s[i]);
                }
            }
        } else {
            let k = choose|k: int| 0 <= k < all.len() && #[trigger] all[k] == SLASH;
            if k < head.len() {
                assert(head[k] == all[k]);
                assert(s[0] == '/');
            } else {
                assert(rest[k - head.len()] == all[k]);
                let j = choose|j: int| 0 <= j < tail.len() && #[trigger] tail[j] == '/';
                assert(s[j + 1] == tail[j]);
            }
        }
    }
}

/// Text starts with `/` if and only if its bytes do.
proof fn slash_first(s: Seq<char>)
    ensures
        (vstd::utf8::encode_utf8(s).len() > 0 && vstd::utf8::encode_utf8(s)[0] == SLASH) == (s.len()
            > 0 && s[0] == '/'),
{
    if s.len() > 0 {
        slash_byte(s[0]);
    }
}

/// Splitting the bytes of a text in front of a `/` splits the text.
proof fn split_in_front_of_slash(s: Seq<char>, at: int)
    requires
        0 <= at < vstd::utf8::encode_utf8(s).len(),
        vstd::utf8::encode_utf8(s)[at] == SLASH,
    ensures
        vstd::utf8::is_char_boundary(vstd::utf8::encode_utf8(s), at),
        vstd::utf8::is_char_boundary(vstd::utf8::encode_utf8(s), at + 1),
        s == vstd::utf8::decode_utf8(vstd::utf8::encode_utf8(s).subrange(0, at))
            + vstd::utf8::decode_utf8(
            vstd::utf8::encode_utf8(s).subrange(at, vstd::utf8::encode_utf8(s).len() as int),
        ),
{
    let b = vstd::utf8::encode_utf8(s);
    vstd::utf8::encode_utf8_valid_utf8(s);
    vstd::utf8::encode_utf8_decode_utf8(s);
    vstd::utf8::is_char_boundary_iff_not_is_continuation_byte(b, at);
    vstd::utf8::decode_utf8_split(b, at);
    slash_is_whole(b, at);
}

/// Behind the byte of `/` another character starts.
proof fn slash_is_whole(b: Seq<u8>, at: int)
    requires
        vstd::utf8::valid_utf8(b),
        0 <= at < b.len(),
        b[at] == SLASH,
        vstd::utf8::is_char_boundary(b, at),
    ensures
        vstd::utf8::is_char_boundary(b, at + 1),
    decreases b.len(),
{
    reveal_with_fuel(vstd::utf8::is_char_boundary, 3);
    if at > 0 {
        let rest = vstd::utf8::pop_first_scalar(b);
        let n = vstd::utf8::length_of_first_scalar(b);
        assert(rest =~= b.subrange(n, b.len() as int));
        if at < n {
            assert(vstd::utf8::is_char_boundary(rest, at - n));
        } else {
            slash_is_whole(rest, at - n);
        }
    } else {
        assert(vstd::utf8::length_of_first_scalar(b) == 1);
    }
}

/// Whether `path` lies below `root`: it is the root itself, or the root and
/// `/` open it. Everything lies below the empty root.
pub open spec fn lies_below(root: Seq<char>, path: Seq<char>) -> bool {
    ||| root.len() == 0
    ||| path == root
    ||| remainder_below(root, path) is Some
}

/// What follows `root` in `path`, if `/` opens it.
pub open spec fn remainder_below(root: Seq<char>, path: Seq<char>) -> Option<Seq<char>> {
    if path.len() > root.len() && path.subrange(0, root.len() as int) == root && path[root.len() as int]
        == '/' {
        Some(path.subrange(root.len() as int, path.len() as int))
    } else {
        None
    }
}

/// What follows `root` in `path`, if `/` opens it.
pub fn strip_root<'a>(root: &str, path: &'a str) -> (r: Option<&'a str>)
    ensures
        match r {
            Some(rest) => remainder_below(root@, path@) == Some(rest@),
            None => remainder_below(root@, path@) is None,
        },
{
    let rb = root.as_bytes();
    let pb = path.as_bytes();
    let n: usize = rb.len();
    proof {
        if remainder_below(root@, path@) is Some {
            let rest = path@.subrange(root@.len() as int, path@.len() as int);
            assert(path@ =~= root@ + rest);
            encode_concat(root@, rest);
            slash_first(rest);
            assert(pb@ == rb@ + vstd::utf8::encode_utf8(rest));
            assert(pb@.subrange(0, n as int) =~= rb@);
            assert(pb@[n as int] == SLASH);
        }
    }
    if pb.len() <= n || pb[n] != SLASH {
        return None;
    }
    let head = vstd::slice::slice_subrange(pb, 0, n);
    if !bytes_equal(head, rb) {
        return None;
    }
    proof {
        split_in_front_of_slash(path@, n as int);
    }
    let (_, rest) = path.split_at(n);
    proof {
        vstd::utf8::encode_utf8_decode_utf8(rest@);
        vstd::utf8::encode_utf8_decode_utf8(root@);
        slash_first(rest@);
        assert(path@ == root@ + rest@);
        assert(path@.subrange(0, root@.len() as int) =~= root@);
        assert(path@.subrange(root@.len() as int, path@.len() as int) =~= rest@);
    }
    Some(rest)
}

/// Whether `path` lies below `root`.
pub fn matches_root(root: &str, path: &str) -> (r: bool)
    ensures
        r == lies_below(root@, path@),
{
    if root.is_empty() {
        return true;
    }
    if text_equal(path, root) {
        return true;
    }
    strip_root(root, path).is_some()
}

/// Whether `s` starts with `/`.
pub fn starts_with_slash(s: &str) -> (r: bool)
    ensures
        r == (s@.len() > 0 && s@[0] == '/'),
{
    proof {
        slash_first(s@);
    }
    let b = s.as_bytes();
    b.len() > 0 && b[0] == SLASH
}

/// `s` without the `/`s at its end.
pub open spec fn trimmed(s: Seq<char>) -> Seq<char>
    decreases s.len(),
{
    if s.len() > 0 && s.last() == '/' {
        trimmed(s.drop_last())
    } else {
        s
    }
}

/// Text ends with `/` if and only if its bytes do.
proof fn slash_last(s: Seq<char>)
    ensures
        (vstd::utf8::encode_utf8(s).len() > 0 && vstd::utf8::encode_utf8(s).last() == SLASH) == (
        s.len() > 0 && s.last() == '/'),
{
    if s.len() > 0 {
        let c = s.last();
        let one = seq![c];
        slash_byte(c);
        assert(s =~= s.drop_last() + one);
        encode_concat(s.drop_last(), one);
        reveal_with_fuel(vstd::utf8::encode_utf8, 2);
        assert(one.drop_first() =~= Seq::<char>::empty());
        assert(vstd::utf8::encode_utf8(one) =~= vstd::utf8::encode_scalar(c as u32));
        let last = vstd::utf8::encode_scalar(c as u32);
        assert(vstd::utf8::encode_utf8(s).last() == last[last.len() - 1]);
    }
}

/// `s` without the `/`s at its end.
pub fn trim_end_slashes(s: &str) -> (r: &str)
    ensures
        r@ == trimmed(s@),
{
    let mut rest: &str = s;
    loop
        invariant
            trimmed(rest@) == trimmed(s@),
        decreases rest@.len(),
    {
        let b = rest.as_bytes();
        let n: usize = b.len();
        proof {
            slash_last(rest@);
        }
        if n == 0 || b[n - 1] != SLASH {
            return rest;
        }
        proof {
            split_in_front_of_slash(rest@, n - 1);
        }
        let (head, end) = rest.split_at(n - 1);
        proof {
            vstd::utf8::encode_utf8_decode_utf8(end@);
            vstd::utf8::encode_utf8_decode_utf8(head@);
            slash_first(end@);
            let tail = end@.drop_first();
            slash_byte(end@[0]);
            assert(vstd::utf8::encode_utf8(end@) == vstd::utf8::encode_scalar(end@[0] as u32)
                + vstd::utf8::encode_utf8(tail));
            if tail.len() > 0 {
                slash_byte(tail[0]);
            }
            assert(end@.len() == 1);
            assert(rest@ == head@ + end@);
            assert(rest@.drop_last() =~= head@);
        }
        rest = head;
    }
}

/// Position of the first `/`, or the length.
pub open spec fn first_slash(s: Seq<char>) -> nat
    decreases s.len(),
{
    if s.len() == 0 || s[0] == '/' {
        0
    } else {
        1 + first_slash(s.drop_first())
    }
}

/// What the first `/` separates.
proof fn first_slash_separates(s: Seq<char>)
    ensures
        first_slash(s) <= s.len(),
        forall|i: int| 0 <= i < first_slash(s) ==> #[trigger] s[i] != '/',
        first_slash(s) < s.len() ==> s[first_slash(s) as int] == '/',
    decreases s.len(),
{
    if s.len() > 0 && s[0] != '/' {
        let tail = s.drop_first();
        first_slash_separates(tail);
        assert forall|i: int| 0 <= i < first_slash(s) implies #[trigger] s[i] != '/' by {
            if i > 0 {
                assert(tail[i - 1] == s[i]);
            }
        }
        if first_slash(s) < s.len() {
            assert(tail[first_slash(tail) as int] == s[first_slash(s) as int]);
        }
    }
}

/// Text without `/` in front of one ends at the first.
proof fn first_slash_is(s: Seq<char>, at: int)
    requires
        0 <= at <= s.len(),
        forall|i: int| 0 <= i < at ==> #[trigger] s[i] != '/',
        at < s.len() ==> s[at] == '/',
    ensures
        first_slash(s) == at,
{
    first_slash_separates(s);
    let k = first_slash(s) as int;
    if k < at {
        assert(s[k] == '/');
    } else if k > at {
        assert(s[at] != '/');
    }
}

/// The segments that `/` separates.
pub open spec fn segments(s: Seq<char>) -> Seq<Seq<char>>
    decreases s.len(),
{
    let at = first_slash(s);
    if at >= s.len() {
        seq![s]
    } else {
        seq![s.subrange(0, at as int)] + segments(s.subrange(at as int + 1, s.len() as int))
    }
}

/// Segments put together again with `/` between them.
pub open spec fn joined(segs: Seq<Seq<char>>) -> Seq<char>
    decreases segs.len(),
{
    if segs.len() == 0 {
        Seq::empty()
    } else if segs.len() == 1 {
        segs[0]
    } else {
        segs[0] + seq!['/'] + joined(segs.drop_first())
    }
}

/// Splitting loses nothing: the segments hold no `/`, and put together they are
/// the text again.
pub proof fn segments_rejoin(s: Seq<char>)
    ensures
        joined(segments(s)) == s,
        segments(s).len() > 0,
        forall|i: int, j: int|
            0 <= i < segments(s).len() && 0 <= j < segments(s)[i].len() ==> #[trigger] segments(
                s,
            )[i][j] != '/',
    decreases s.len(),
{
    first_slash_separates(s);
    let at = first_slash(s) as int;
    if at < s.len() {
        let rest = s.subrange(at + 1, s.len() as int);
        segments_rejoin(rest);
        let segs = segments(s);
        assert(segs.drop_first() =~= segments(rest));
        assert(joined(segs) =~= s);
        assert forall|i: int, j: int|
            0 <= i < segs.len() && 0 <= j < segs[i].len() implies #[trigger] segs[i][j]
            != '/' by {
            if i > 0 {
                assert(segs[i] == segments(rest)[i - 1]);
            }
        }
    }
}

/// The first segment, and what follows the `/` behind it, if there is one.
pub fn split_segment<'a>(s: &'a str) -> (r: (&'a str, Option<&'a str>))
    ensures
        r.0@ == s@.subrange(0, first_slash(s@) as int),
        r.1 is Some == (first_slash(s@) < s@.len()),
        r.1 matches Some(rest) ==> rest@ == s@.subrange(first_slash(s@) as int + 1, s@.len() as int),
{
    let b = s.as_bytes();
    let n: usize = b.len();
    let mut i: usize = 0;
    while i < n && b[i] != SLASH
        invariant
            i <= n,
            n == b@.len(),
            forall|j: int| 0 <= j < i ==> #[trigger] b@[j] != SLASH,
        decreases n - i,
    {
        i = i + 1;
    }
    if i >= n {
        proof {
            slash_free(s@);
            first_slash_is(s@, s@.len() as int);
            assert(s@.subrange(0, s@.len() as int) =~= s@);
        }
        return (s, None);
    }
    proof {
        split_in_front_of_slash(s@, i as int);
    }
    let (head, _) = s.split_at(i);
    let (_, rest) = s.split_at(i + 1);
    proof {
        vstd::utf8::encode_utf8_decode_utf8(head@);
        vstd::utf8::encode_utf8_decode_utf8(rest@);
        slash_free(head@);
        let with_slash = b@.subrange(i as int, n as int);
        let tail = vstd::utf8::decode_utf8(with_slash);
        vstd::utf8::encode_utf8_valid_utf8(s@);
        vstd::utf8::valid_utf8_split(b@, i as int);
        vstd::utf8::decode_utf8_encode_utf8(with_slash);
        slash_first(tail);
        assert(s@ == head@ + tail);
        encode_concat(seq!['/'], tail.drop_first());
        slash_byte('/');
        assert(seq!['/'] + tail.drop_first() =~= tail);
        assert(seq!['/'].drop_first() =~= Seq::<char>::empty());
        assert(vstd::utf8::encode_utf8(seq!['/']) =~= seq![SLASH]) by {
            assert(vstd::utf8::encode_utf8(Seq::<char>::empty()) =~= Seq::<u8>::empty());
        }
        let behind = vstd::utf8::encode_utf8(tail.drop_first());
        assert(with_slash == seq![SLASH] + behind);
        assert(behind =~= with_slash.subrange(1, with_slash.len() as int));
        assert(with_slash.subrange(1, with_slash.len() as int) =~= b@.subrange(i + 1, n as int));
        assert(vstd::utf8::encode_utf8(rest@) == behind);
        text::same_bytes_same_text(rest@, tail.drop_first());
        first_slash_is(s@, head@.len() as int);
        assert(s@.subrange(0, head@.len() as int) =~= head@);
        assert(s@.subrange(head@.len() as int + 1, s@.len() as int) =~= rest@);
    }
    (head, Some(rest))
}

/// A reference token as it is meant: `~1` stands for `/` and `~0` for `~`.
pub open spec fn unescaped(s: Seq<char>) -> Seq<char>
    decreases s.len(),
{
    if s.len() == 0 {
        Seq::empty()
    } else if s.len() >= 2 && s[0] == '~' && s[1] == '1' {
        seq!['/'] + unescaped(s.subrange(2, s.len() as int))
    } else if s.len() >= 2 && s[0] == '~' && s[1] == '0' {
        seq!['~'] + unescaped(s.subrange(2, s.len() as int))
    } else {
        seq![s[0]] + unescaped(s.subrange(1, s.len() as int))
    }
}

/// A key as a reference token.
pub open spec fn escaped(s: Seq<char>) -> Seq<char>
    decreases s.len(),
{
    if s.len() == 0 {
        Seq::empty()
    } else if s[0] == '~' {
        seq!['~', '0'] + escaped(s.subrange(1, s.len() as int))
    } else if s[0] == '/' {
        seq!['~', '1'] + escaped(s.subrange(1, s.len() as int))
    } else {
        seq![s[0]] + escaped(s.subrange(1, s.len() as int))
    }
}

/// Every key can be reached: written as a reference token it holds no `/`, and
/// the token is read back as the key.
pub proof fn any_key_can_be_a_token(s: Seq<char>)
    ensures
        unescaped(escaped(s)) == s,
        forall|i: int| 0 <= i < escaped(s).len() ==> #[trigger] escaped(s)[i] != '/',
    decreases s.len(),
{
    if s.len() > 0 {
        let tail = s.subrange(1, s.len() as int);
        any_key_can_be_a_token(tail);
        let e = escaped(s);
        if s[0] == '~' || s[0] == '/' {
            assert(e.subrange(2, e.len() as int) =~= escaped(tail));
            assert(unescaped(e) =~= seq![s[0]] + tail);
        } else {
            assert(e.subrange(1, e.len() as int) =~= escaped(tail));
            assert(unescaped(e) =~= seq![s[0]] + tail);
        }
        assert(seq![s[0]] + tail =~= s);
        assert forall|i: int| 0 <= i < e.len() implies #[trigger] e[i] != '/' by {
            let head = e.len() - escaped(tail).len();
            if i >= head {
                assert(e[i] == escaped(tail)[i - head]);
            }
        }
    }
}

/// A `~` that is not decided yet.
spec fn held_back(pending: bool) -> Seq<char> {
    if pending {
        seq!['~']
    } else {
        Seq::empty()
    }
}

/// Reads a reference token.
pub fn unescape(s: &str) -> (r: String)
    ensures
        r@ == unescaped(s@),
{
    let mut out = String::new();
    let mut pending: bool = false;
    assert(held_back(false) + s@.subrange(0, s@.len() as int) =~= s@);
    assert(out@ + unescaped(s@) =~= unescaped(s@));
    for c in it: s.chars()
        invariant
            it.seq() == s@,
            out@ + unescaped(held_back(pending) + s@.subrange(it.index(), s@.len() as int))
                == unescaped(s@),
    {
        let ghost left = s@.subrange(it.index(), s@.len() as int);
        let ghost rest = s@.subrange(it.index() + 1, s@.len() as int);
        let ghost had = out@;
        let ghost was = pending;
        proof {
            assert(left =~= seq![c] + rest);
            let todo = held_back(pending) + left;
            if pending {
                assert(todo.subrange(1, todo.len() as int) =~= left);
                assert(todo.subrange(2, todo.len() as int) =~= rest);
            } else {
                assert(todo =~= left);
                assert(todo.subrange(1, todo.len() as int) =~= rest);
            }
            assert(left.subrange(1, left.len() as int) =~= rest);
        }
        if pending {
            if c == '1' {
                push_char(&mut out, '/');
                pending = false;
            } else if c == '0' {
                push_char(&mut out, '~');
                pending = false;
            } else {
                push_char(&mut out, '~');
                if c != '~' {
                    push_char(&mut out, c);
                    pending = false;
                }
            }
        } else if c == '~' {
            pending = true;
        } else {
            push_char(&mut out, c);
        }
        proof {
            let todo = held_back(was) + left;
            assert(had + unescaped(todo) == unescaped(s@));
            if was {
                if c == '1' {
                    assert(unescaped(todo) == seq!['/'] + unescaped(rest));
                    assert(held_back(false) + rest =~= rest);
                    assert(had + (seq!['/'] + unescaped(rest)) =~= out@ + unescaped(rest));
                } else if c == '0' {
                    assert(unescaped(todo) == seq!['~'] + unescaped(rest));
                    assert(held_back(false) + rest =~= rest);
                    assert(had + (seq!['~'] + unescaped(rest)) =~= out@ + unescaped(rest));
                } else if c == '~' {
                    assert(unescaped(todo) == seq!['~'] + unescaped(left));
                    assert(held_back(true) + rest =~= left);
                    assert(had + (seq!['~'] + unescaped(left)) =~= out@ + unescaped(left));
                } else {
                    assert(unescaped(todo) == seq!['~'] + unescaped(left));
                    assert(unescaped(left) == seq![c] + unescaped(rest));
                    assert(held_back(false) + rest =~= rest);
                    assert(had + (seq!['~'] + (seq![c] + unescaped(rest))) =~= out@ + unescaped(
                        rest,
                    ));
                }
            } else if c == '~' {
                assert(held_back(true) + rest =~= todo);
            } else {
                assert(unescaped(todo) == seq![c] + unescaped(rest));
                assert(held_back(false) + rest =~= rest);
                assert(had + (seq![c] + unescaped(rest)) =~= out@ + unescaped(rest));
            }
        }
    }
    let ghost had = out@;
    proof {
        let end = s@.subrange(s@.len() as int, s@.len() as int);
        assert(held_back(pending) + end =~= held_back(pending));
        assert(seq!['~'].subrange(1, 1) =~= Seq::<char>::empty());
        assert(unescaped(seq!['~'].subrange(1, 1)) == Seq::<char>::empty());
        assert(unescaped(seq!['~']) =~= seq!['~']);
        assert(unescaped(Seq::<char>::empty()) == Seq::<char>::empty());
        assert(had + Seq::<char>::empty() =~= had);
        assert(had + seq!['~'] =~= had.push('~'));
    }
    if pending {
        push_char(&mut out, '~');
    }
    out
}

/// The reference tokens of a pointer: none for the empty one, and otherwise the
/// segments behind the leading `/`. A lone `/` names one empty token.
pub open spec fn pointer_tokens(p: Seq<char>) -> Seq<Seq<char>> {
    if p.len() == 0 {
        Seq::empty()
    } else if p[0] == '/' {
        segments(p.subrange(1, p.len() as int)).map_values(|s: Seq<char>| unescaped(s))
    } else {
        segments(p).map_values(|s: Seq<char>| unescaped(s))
    }
}

/// The texts of strings.
pub open spec fn texts(v: Seq<String>) -> Seq<Seq<char>> {
    Seq::new(v.len(), |i: int| v[i]@)
}

/// The reference tokens of a pointer.
pub fn pointer_segments(p: &str) -> (r: Vec<String>)
    ensures
        texts(r@) == pointer_tokens(p@),
{
    let mut out: Vec<String> = Vec::new();
    if p.is_empty() {
        assert(texts(out@) =~= pointer_tokens(p@));
        return out;
    }
    let mut rest: &str = p;
    if starts_with_slash(p) {
        let (_, tail) = split_segment(p);
        proof {
            first_slash_is(p@, 0);
        }
        if let Some(t) = tail {
            rest = t;
        }
    }
    let ghost all = segments(rest@).map_values(|s: Seq<char>| unescaped(s));
    let mut more: bool = true;
    assert(texts(out@) + all =~= all);
    while more
        invariant
            more ==> texts(out@) + segments(rest@).map_values(|s: Seq<char>| unescaped(s)) == all,
            !more ==> texts(out@) == all,
        decreases (if more { 1 + rest@.len() } else { 0 }),
    {
        let ghost was = rest@;
        let ghost had = texts(out@);
        let (seg, tail) = split_segment(rest);
        proof {
            first_slash_separates(was);
        }
        out.push(unescape(seg));
        assert(texts(out@) =~= had.push(unescaped(seg@)));
        match tail {
            Some(t) => {
                rest = t;
                proof {
                    let segs = segments(was).map_values(|s: Seq<char>| unescaped(s));
                    assert(segments(was) == seq![seg@] + segments(t@));
                    assert(segs =~= seq![unescaped(seg@)] + segments(t@).map_values(
                        |s: Seq<char>| unescaped(s),
                    ));
                    assert(had + segs =~= texts(out@) + segments(t@).map_values(
                        |s: Seq<char>| unescaped(s),
                    ));
                }
            },
            None => {
                more = false;
                proof {
                    let segs = segments(was).map_values(|s: Seq<char>| unescaped(s));
                    assert(was.subrange(0, was.len() as int) =~= was);
                    assert(segs =~= seq![unescaped(seg@)]);
                    assert(had + segs =~= texts(out@));
                }
            },
        }
    }
    out
}

/// The pointer to what is found by following `keys`, one after the other.
pub open spec fn pointer_to(keys: Seq<Seq<char>>) -> Seq<char>
    decreases keys.len(),
{
    if keys.len() == 0 {
        Seq::empty()
    } else {
        seq!['/'] + escaped(keys[0]) + pointer_to(keys.drop_first())
    }
}

proof fn segments_of_a_pointer(keys: Seq<Seq<char>>)
    requires
        keys.len() > 0,
    ensures
        segments(pointer_to(keys).subrange(1, pointer_to(keys).len() as int)) == keys.map_values(
            |k: Seq<char>| escaped(k),
        ),
    decreases keys.len(),
{
    let p = pointer_to(keys);
    let first = escaped(keys[0]);
    let rest = keys.drop_first();
    let tail = p.subrange(1, p.len() as int);
    any_key_can_be_a_token(keys[0]);
    assert(tail =~= first + pointer_to(rest));
    assert forall|i: int| 0 <= i < first.len() implies #[trigger] tail[i] != '/' by {
        assert(tail[i] == first[i]);
    }
    if rest.len() == 0 {
        assert(tail =~= first);
        first_slash_is(tail, tail.len() as int);
        assert(keys.map_values(|k: Seq<char>| escaped(k)) =~= seq![first]);
    } else {
        segments_of_a_pointer(rest);
        let q = pointer_to(rest);
        assert(tail[first.len() as int] == q[0]);
        first_slash_is(tail, first.len() as int);
        assert(tail.subrange(0, first.len() as int) =~= first);
        assert(tail.subrange(first.len() as int + 1, tail.len() as int) =~= q.subrange(
            1,
            q.len() as int,
        ));
        assert(keys.map_values(|k: Seq<char>| escaped(k)) =~= seq![first] + rest.map_values(
            |k: Seq<char>| escaped(k),
        ));
    }
}

/// A pointer leads along its keys: whatever the keys hold, the pointer that was
/// made of them is read as those keys, in that order.
pub proof fn a_pointer_leads_along_its_keys(keys: Seq<Seq<char>>)
    ensures
        pointer_tokens(pointer_to(keys)) == keys,
{
    if keys.len() > 0 {
        segments_of_a_pointer(keys);
        let p = pointer_to(keys);
        assert(p[0] == '/');
        let tokens = pointer_tokens(p);
        assert forall|i: int| 0 <= i < keys.len() implies #[trigger] tokens[i] == keys[i] by {
            any_key_can_be_a_token(keys[i]);
        }
        assert(tokens =~= keys);
    }
}

/// What lies below a root is the root, and whatever a `/` separates from it. A
/// path that merely begins with the same characters does not, and neither does
/// one that begins with others.
pub proof fn a_root_covers_whole_segments(root: Seq<char>, c: char, rest: Seq<char>)
    ensures
        lies_below(root, root),
        lies_below(root, root + seq!['/'] + rest),
        remainder_below(root, root + seq!['/'] + rest) == Some(seq!['/'] + rest),
        root.len() > 0 && c != '/' ==> !lies_below(root, root + seq![c] + rest),
{
    let p = root + seq!['/'] + rest;
    assert(p.subrange(0, root.len() as int) =~= root);
    assert(p.subrange(root.len() as int, p.len() as int) =~= seq!['/'] + rest);
    let q = root + seq![c] + rest;
    assert(q[root.len() as int] == c);
    assert(q.len() > root.len());
}

/// Only what begins with a root lies below it.
pub proof fn nothing_else_lies_below_a_root(root: Seq<char>, path: Seq<char>)
    requires
        lies_below(root, path),
    ensures
        path.len() >= root.len(),
        path.subrange(0, root.len() as int) == root,
        root.len() > 0 && path.len() > root.len() ==> path[root.len() as int] == '/',
{
    if root.len() == 0 {
        assert(path.subrange(0, 0) =~= root);
    } else if path == root {
        assert(path.subrange(0, root.len() as int) =~= root);
    }
}

/// Trimming takes every `/` from the end, and nothing else.
pub proof fn trimming_takes_slashes_from_the_end(s: Seq<char>)
    ensures
        trimmed(s).len() <= s.len(),
        trimmed(s) == s.subrange(0, trimmed(s).len() as int),
        forall|i: int| trimmed(s).len() <= i < s.len() ==> #[trigger] s[i] == '/',
        trimmed(s).len() > 0 ==> trimmed(s).last() != '/',
    decreases s.len(),
{
    if s.len() > 0 && s.last() == '/' {
        let init = s.drop_last();
        trimming_takes_slashes_from_the_end(init);
        assert(trimmed(s) =~= s.subrange(0, trimmed(s).len() as int));
        assert forall|i: int| trimmed(s).len() <= i < s.len() implies #[trigger] s[i] == '/' by {
            if i < init.len() {
                assert(init[i] == s[i]);
            }
        }
    } else {
        assert(s.subrange(0, s.len() as int) =~= s);
    }
}

/// A tilde followed by 1 stands for a slash and one followed by 0 for a tilde; any
/// other character, and any other tilde, stands for itself.
pub proof fn an_escape_stands_for_one_character(c: char, rest: Seq<char>)
    ensures
        unescaped(seq!['~', '1'] + rest) == seq!['/'] + unescaped(rest),
        unescaped(seq!['~', '0'] + rest) == seq!['~'] + unescaped(rest),
        c != '~' ==> unescaped(seq![c] + rest) == seq![c] + unescaped(rest),
        c != '0' && c != '1' ==> unescaped(seq!['~', c] + rest) == seq!['~'] + unescaped(
            seq![c] + rest,
        ),
        unescaped(seq!['~']) == seq!['~'],
{
    assert((seq!['~', '1'] + rest).subrange(2, rest.len() + 2int) =~= rest);
    assert((seq!['~', '0'] + rest).subrange(2, rest.len() + 2int) =~= rest);
    assert((seq![c] + rest).subrange(1, rest.len() + 1int) =~= rest);
    assert((seq!['~', c] + rest).subrange(1, rest.len() + 2int) =~= seq![c] + rest);
    assert(seq!['~'].subrange(1, 1) =~= Seq::<char>::empty());
    assert(unescaped(Seq::<char>::empty()) =~= Seq::<char>::empty());
    assert(seq!['~'] + Seq::<char>::empty() =~= seq!['~']);
}

/// A token without a tilde is the key itself.
pub proof fn a_plain_token_is_its_key(s: Seq<char>)
    requires
        !s.contains('~'),
    ensures
        unescaped(s) == s,
    decreases s.len(),
{
    if s.len() > 0 {
        let rest = s.subrange(1, s.len() as int);
        assert forall|i: int| 0 <= i < rest.len() implies rest[i] != '~' by {
            assert(rest[i] == s[i + 1]);
        }
        a_plain_token_is_its_key(rest);
        assert(s[0] != '~');
        assert(seq![s[0]] + rest =~= s);
    }
}

/// A pointer leads to the same place with its first slash and without.
pub proof fn the_first_slash_may_be_left_out(p: Seq<char>)
    requires
        p.len() > 0,
        p[0] != '/',
    ensures
        pointer_tokens(p) == pointer_tokens(seq!['/'] + p),
{
    assert((seq!['/'] + p).subrange(1, p.len() + 1int) =~= p);
}

} // verus!
