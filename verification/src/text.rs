//! UTF-8 text model: a `String` is seen as its characters (`s@`) and as the
//! bytes of their UTF-8 encoding. Byte positions that begin a character (or
//! the end of the text) are the positions a cursor may take.

use vstd::prelude::*;
use vstd::utf8::*;

verus! {

broadcast use vstd::utf8::encode_utf8_valid_utf8;

/// The UTF-8 bytes of a character sequence.
pub open spec fn text_bytes(s: Seq<char>) -> Seq<u8> {
    encode_utf8(s)
}

/// Number of UTF-8 bytes taken by the first `k` characters of `s`.
pub open spec fn byte_offset(s: Seq<char>, k: int) -> int {
    encode_utf8(s.take(k)).len() as int
}

/// Byte position `i` of the text `s` begins a character or is its end.
pub open spec fn is_boundary(s: Seq<char>, i: int) -> bool {
    is_char_boundary(encode_utf8(s), i)
}

/// Encoding distributes over concatenation.
pub proof fn lemma_encode_concat(a: Seq<char>, b: Seq<char>)
    ensures
        encode_utf8(a + b) == encode_utf8(a) + encode_utf8(b),
    decreases a.len(),
{
    if a.len() == 0 {
        assert(a + b =~= b);
        assert(encode_utf8(a) + encode_utf8(b) =~= encode_utf8(b));
    } else {
        assert((a + b)[0] == a[0]);
        assert((a + b).drop_first() =~= a.drop_first() + b);
        lemma_encode_concat(a.drop_first(), b);
        assert(encode_utf8(a + b) =~= encode_utf8(a) + encode_utf8(b));
    }
}

/// A character takes between one and four bytes.
pub proof fn lemma_char_width(c: char)
    ensures
        1 <= encode_utf8(seq![c]).len() <= 4,
        encode_utf8(seq![c]) == encode_scalar(c as u32),
{
    assert(seq![c].drop_first() =~= Seq::<char>::empty());
    assert(encode_utf8(seq![c]) =~= encode_scalar(c as u32) + encode_utf8(Seq::<char>::empty()));
}

/// The encoding of a prefix is a prefix of the encoding.
pub proof fn lemma_encode_take(s: Seq<char>, k: int)
    requires
        0 <= k <= s.len(),
    ensures
        encode_utf8(s.take(k)) == encode_utf8(s).take(byte_offset(s, k)),
        encode_utf8(s.skip(k)) == encode_utf8(s).skip(byte_offset(s, k)),
        0 <= byte_offset(s, k) <= encode_utf8(s).len(),
{
    assert(s =~= s.take(k) + s.skip(k));
    lemma_encode_concat(s.take(k), s.skip(k));
    let a = encode_utf8(s.take(k));
    let b = encode_utf8(s.skip(k));
    assert((a + b).take(a.len() as int) =~= a);
    assert((a + b).skip(a.len() as int) =~= b);
}

/// Offsets grow by the width of each character.
pub proof fn lemma_offset_step(s: Seq<char>, k: int)
    requires
        0 <= k < s.len(),
    ensures
        byte_offset(s, k + 1) == byte_offset(s, k) + encode_utf8(seq![s[k]]).len(),
        byte_offset(s, k) < byte_offset(s, k + 1),
{
    assert(s.take(k + 1) =~= s.take(k) + seq![s[k]]);
    lemma_encode_concat(s.take(k), seq![s[k]]);
    lemma_char_width(s[k]);
}

/// Offsets are strictly increasing in the character index.
pub proof fn lemma_offset_monotone(s: Seq<char>, m: int, n: int)
    requires
        0 <= m <= n <= s.len(),
    ensures
        byte_offset(s, m) <= byte_offset(s, n),
        m < n ==> byte_offset(s, m) < byte_offset(s, n),
    decreases n - m,
{
    if m < n {
        lemma_offset_step(s, n - 1);
        lemma_offset_monotone(s, m, n - 1);
    }
}

/// The offset of the whole text is its byte length.
pub proof fn lemma_offset_full(s: Seq<char>)
    ensures
        byte_offset(s, s.len() as int) == encode_utf8(s).len(),
        byte_offset(s, 0) == 0,
{
    assert(s.take(s.len() as int) =~= s);
    assert(s.take(0) =~= Seq::<char>::empty());
}

/// Every prefix offset is a character boundary.
pub proof fn lemma_offset_is_boundary(s: Seq<char>, k: int)
    requires
        0 <= k <= s.len(),
    ensures
        is_boundary(s, byte_offset(s, k)),
    decreases s.len(),
{
    lemma_offset_full(s);
    if k == 0 {
    } else {
        let b = encode_utf8(s);
        let rest = s.drop_first();
        encode_utf8_first_scalar(s);
        lemma_char_width(s[0]);
        assert(s =~= seq![s[0]] + rest);
        lemma_encode_concat(seq![s[0]], rest);
        let w = encode_utf8(seq![s[0]]).len() as int;
        assert(pop_first_scalar(b) =~= encode_utf8(rest));
        assert(s.take(k) =~= seq![s[0]] + rest.take(k - 1));
        lemma_encode_concat(seq![s[0]], rest.take(k - 1));
        lemma_offset_is_boundary(rest, k - 1);
        lemma_encode_take(s, k);
        assert(byte_offset(s, k) == w + byte_offset(rest, k - 1));
    }
}

/// Every character boundary is the offset of some prefix.
pub proof fn lemma_boundary_is_offset(s: Seq<char>, i: int)
    requires
        is_boundary(s, i),
    ensures
        0 <= i <= encode_utf8(s).len(),
        exists|k: int| 0 <= k <= s.len() && byte_offset(s, k) == i,
    decreases s.len(),
{
    lemma_offset_full(s);
    if i == 0 {
        assert(byte_offset(s, 0) == i);
    } else if s.len() == 0 {
        assert(encode_utf8(s) =~= Seq::<u8>::empty());
    } else {
        let b = encode_utf8(s);
        let rest = s.drop_first();
        encode_utf8_first_scalar(s);
        lemma_char_width(s[0]);
        assert(s =~= seq![s[0]] + rest);
        lemma_encode_concat(seq![s[0]], rest);
        let w = encode_utf8(seq![s[0]]).len() as int;
        assert(pop_first_scalar(b) =~= encode_utf8(rest));
        lemma_boundary_is_offset(rest, i - w);
        let k0 = choose|k: int| 0 <= k <= rest.len() && byte_offset(rest, k) == i - w;
        assert(s.take(k0 + 1) =~= seq![s[0]] + rest.take(k0));
        lemma_encode_concat(seq![s[0]], rest.take(k0));
        assert(byte_offset(s, k0 + 1) == i);
    }
}


/// Different texts have different encodings.
pub proof fn lemma_encode_injective(x: Seq<char>, y: Seq<char>)
    requires
        encode_utf8(x) == encode_utf8(y),
    ensures
        x == y,
{
    encode_utf8_decode_utf8(x);
    encode_utf8_decode_utf8(y);
}

/// `p` is the start of the character that ends at byte position `c`.
pub open spec fn is_prev_boundary(s: Seq<char>, c: int, p: int) -> bool {
    &&& 0 <= p < c
    &&& is_boundary(s, p)
    &&& forall|j: int| p < j < c ==> !#[trigger] is_boundary(s, j)
}

/// `n` is the end of the character that starts at byte position `c`.
pub open spec fn is_next_boundary(s: Seq<char>, c: int, n: int) -> bool {
    &&& c < n
    &&& is_boundary(s, n)
    &&& forall|j: int| c < j < n ==> !#[trigger] is_boundary(s, j)
}

/// The bytes of `s` with the byte range `from..to` replaced by the encoding of `ins`.
pub open spec fn splice(s: Seq<char>, from: int, to: int, ins: Seq<char>) -> Seq<u8> {
    text_bytes(s).take(from) + text_bytes(ins) + text_bytes(s).skip(to)
}

/// A boundary `p` just before boundary `c` delimits exactly one character.
pub proof fn lemma_prev_boundary_char(s: Seq<char>, c: int, p: int) -> (j: int)
    requires
        is_boundary(s, c),
        is_prev_boundary(s, c, p),
    ensures
        1 <= j <= s.len(),
        byte_offset(s, j) == c,
        byte_offset(s, j - 1) == p,
{
    lemma_boundary_is_offset(s, c);
    let j = choose|k: int| 0 <= k <= s.len() && byte_offset(s, k) == c;
    lemma_boundary_is_offset(s, p);
    let m = choose|k: int| 0 <= k <= s.len() && byte_offset(s, k) == p;
    lemma_offset_full(s);
    if m >= j {
        lemma_offset_monotone(s, j, m);
    }
    assert(m < j);
    if m < j - 1 {
        lemma_offset_monotone(s, m, j - 1);
        lemma_offset_monotone(s, j - 1, j);
        lemma_offset_is_boundary(s, j - 1);
        assert(!is_boundary(s, byte_offset(s, j - 1)));
    }
    j
}

/// Removing the bytes of the character `j - 1` removes that character.
pub proof fn lemma_remove_char(s: Seq<char>, j: int, t: Seq<char>)
    requires
        1 <= j <= s.len(),
        text_bytes(t) == splice(s, byte_offset(s, j - 1), byte_offset(s, j), Seq::empty()),
    ensures
        t == s.remove(j - 1),
        byte_offset(t, j - 1) == byte_offset(s, j - 1),
        is_boundary(t, byte_offset(s, j - 1)),
{
    let r = s.take(j - 1) + s.skip(j);
    lemma_encode_take(s, j - 1);
    lemma_encode_take(s, j);
    lemma_encode_concat(s.take(j - 1), s.skip(j));
    assert(encode_utf8(Seq::<char>::empty()) =~= Seq::<u8>::empty());
    assert(encode_utf8(r) =~= splice(s, byte_offset(s, j - 1), byte_offset(s, j), Seq::empty()));
    lemma_encode_injective(t, r);
    assert(r =~= s.remove(j - 1));
    assert(t.take(j - 1) =~= s.take(j - 1));
    lemma_offset_is_boundary(t, j - 1);
}

/// Inserting the bytes of `ch` at the boundary of character `k` inserts `ch` there.
pub proof fn lemma_insert_char(s: Seq<char>, k: int, ch: char, t: Seq<char>)
    requires
        0 <= k <= s.len(),
        text_bytes(t) == splice(s, byte_offset(s, k), byte_offset(s, k), seq![ch]),
    ensures
        t == s.insert(k, ch),
        byte_offset(t, k) == byte_offset(s, k),
        byte_offset(t, k + 1) == byte_offset(s, k) + text_bytes(seq![ch]).len(),
        is_boundary(t, byte_offset(s, k) + text_bytes(seq![ch]).len()),
{
    let r = s.take(k) + seq![ch] + s.skip(k);
    lemma_encode_take(s, k);
    lemma_encode_concat(s.take(k), seq![ch]);
    lemma_encode_concat(s.take(k) + seq![ch], s.skip(k));
    lemma_encode_injective(t, r);
    assert(r =~= s.insert(k, ch));
    assert(t.take(k) =~= s.take(k));
    assert(t.take(k + 1) =~= s.take(k) + seq![ch]);
    lemma_offset_is_boundary(t, k + 1);
}

/// Number of bytes that `c` takes in UTF-8 (`char::len_utf8`).
pub fn utf8_width(c: char) -> (w: usize)
    ensures
        w == text_bytes(seq![c]).len(),
        1 <= w <= 4,
{
    proof {
        lemma_char_width(c);
        char_is_scalar(c);
    }
    let v = c as u32;
    if v < 0x80 {
        1
    } else if v < 0x800 {
        2
    } else if v < 0x10000 {
        3
    } else {
        4
    }
}

/// Byte length of a `String` (`String::len`).
#[verifier::external_body]
pub(crate) fn text_len(s: &String) -> (n: usize)
    ensures
        n == text_bytes(s@).len(),
{
    s.len()
}

/// Inserts `c` at byte position `idx` (`String::insert`, which panics off a boundary).
#[verifier::external_body]
pub(crate) fn insert_at(s: &mut String, idx: usize, c: char)
    requires
        is_boundary(old(s)@, idx as int),
    ensures
        text_bytes(final(s)@) == splice(old(s)@, idx as int, idx as int, seq![c]),
{
    s.insert(idx, c)
}

/// Removes the bytes `start..end` (`String::drain`, which panics off a boundary).
#[verifier::external_body]
pub(crate) fn remove_range(s: &mut String, start: usize, end: usize)
    requires
        start <= end,
        is_boundary(old(s)@, start as int),
        is_boundary(old(s)@, end as int),
    ensures
        text_bytes(final(s)@) == splice(old(s)@, start as int, end as int, Seq::empty()),
{
    s.drain(start..end);
}

/// The character boundary just before byte position `c`.
pub fn prev_boundary(s: &String, c: usize) -> (p: usize)
    requires
        0 < c,
        is_boundary(s@, c as int),
    ensures
        is_prev_boundary(s@, c as int, p as int),
{
    let st = s.as_str();
    let mut p: usize = c - 1;
    while !st.is_char_boundary(p)
        invariant
            st@ == s@,
            p < c,
            forall|j: int| p < j < c ==> !#[trigger] is_boundary(s@, j),
        decreases p,
    {
        p = p - 1;
    }
    p
}

/// The character boundary just after byte position `c`.
pub fn next_boundary(s: &String, c: usize) -> (n: usize)
    requires
        c < text_bytes(s@).len(),
    ensures
        is_next_boundary(s@, c as int, n as int),
        n <= text_bytes(s@).len(),
{
    let st = s.as_str();
    let len = text_len(s);
    proof {
        lemma_offset_full(s@);
        lemma_offset_is_boundary(s@, s@.len() as int);
    }
    let mut n: usize = c + 1;
    while n < len && !st.is_char_boundary(n)
        invariant
            st@ == s@,
            len == text_bytes(s@).len(),
            is_boundary(s@, len as int),
            c < n <= len,
            forall|j: int| c < j < n ==> !#[trigger] is_boundary(s@, j),
        decreases len - n,
    {
        n = n + 1;
    }
    n
}

/// Consecutive prefix offsets delimit exactly one character.
pub proof fn lemma_consecutive_offsets(s: Seq<char>, k: int)
    requires
        0 <= k < s.len(),
    ensures
        is_prev_boundary(s, byte_offset(s, k + 1), byte_offset(s, k)),
        is_next_boundary(s, byte_offset(s, k), byte_offset(s, k + 1)),
{
    lemma_offset_full(s);
    lemma_offset_monotone(s, 0, k);
    lemma_offset_step(s, k);
    lemma_offset_is_boundary(s, k);
    lemma_offset_is_boundary(s, k + 1);
    assert forall|j: int| byte_offset(s, k) < j < byte_offset(s, k + 1) implies !#[trigger] is_boundary(
        s,
        j,
    ) by {
        if is_boundary(s, j) {
            lemma_boundary_is_offset(s, j);
            let m = choose|m: int| 0 <= m <= s.len() && byte_offset(s, m) == j;
            if m <= k {
                lemma_offset_monotone(s, m, k);
            } else {
                lemma_offset_monotone(s, k + 1, m);
            }
        }
    }
}

/// Law: inserting a character and then deleting backwards restores the text
/// and the cursor (the cursor lands back where the character was inserted).
pub proof fn law_backspace_undoes_insert(s: Seq<char>, c: int, ch: char, t: Seq<char>)
    requires
        is_boundary(s, c),
        text_bytes(t) == splice(s, c, c, seq![ch]),
    ensures
        is_prev_boundary(t, c + text_bytes(seq![ch]).len(), c),
        forall|p: int| #[trigger] is_prev_boundary(t, c + text_bytes(seq![ch]).len(), p) ==> p == c,
        splice(t, c, c + text_bytes(seq![ch]).len(), Seq::empty()) == text_bytes(s),
{
    lemma_boundary_is_offset(s, c);
    let k = choose|k: int| 0 <= k <= s.len() && byte_offset(s, k) == c;
    lemma_insert_char(s, k, ch, t);
    lemma_consecutive_offsets(t, k);
    let c1 = c + text_bytes(seq![ch]).len();
    lemma_encode_take(t, k);
    lemma_encode_take(t, k + 1);
    lemma_encode_take(s, k);
    assert(t.take(k) =~= s.take(k));
    assert(t.skip(k + 1) =~= s.skip(k));
    assert(s =~= s.take(k) + s.skip(k));
    lemma_encode_concat(s.take(k), s.skip(k));
    assert(encode_utf8(Seq::<char>::empty()) =~= Seq::<u8>::empty());
    assert(splice(t, c, c1, Seq::empty()) =~= text_bytes(s));
}

/// Law: inserting a character at the byte cursor inserts it in the character
/// sequence at the matching character index, leaving every other character.
pub proof fn law_insert_is_char_insert(s: Seq<char>, c: int, ch: char, t: Seq<char>)
    requires
        is_boundary(s, c),
        text_bytes(t) == splice(s, c, c, seq![ch]),
    ensures
        exists|k: int| 0 <= k <= s.len() && byte_offset(s, k) == c && t == s.insert(k, ch),
        t.len() == s.len() + 1,
{
    lemma_boundary_is_offset(s, c);
    let k = choose|k: int| 0 <= k <= s.len() && byte_offset(s, k) == c;
    lemma_insert_char(s, k, ch, t);
}

/// Law: deleting from the previous boundary `p` up to the cursor `c` removes
/// exactly the one character that ends at the cursor.
pub proof fn law_delete_is_char_remove(s: Seq<char>, p: int, c: int, t: Seq<char>)
    requires
        is_boundary(s, c),
        is_prev_boundary(s, c, p),
        text_bytes(t) == splice(s, p, c, Seq::empty()),
    ensures
        exists|j: int| 1 <= j <= s.len() && #[trigger] byte_offset(s, j) == c && byte_offset(s, j - 1) == p && t == s.remove(j - 1),
        t.len() + 1 == s.len(),
{
    let j = lemma_prev_boundary_char(s, c, p);
    lemma_remove_char(s, j, t);
}

/// Law: moving left and then right returns to the same cursor, and so does
/// moving right and then left.
pub proof fn law_left_right_inverse(s: Seq<char>, c: int, d: int)
    requires
        is_boundary(s, c),
    ensures
        is_prev_boundary(s, c, d) ==> is_next_boundary(s, d, c),
        0 <= c && is_next_boundary(s, c, d) ==> is_prev_boundary(s, d, c),
{
}

/// Law: the cursor positions of a text are exactly the byte offsets of its
/// character prefixes, from 0 to the byte length.
pub proof fn law_boundaries_are_prefix_offsets(s: Seq<char>, i: int)
    ensures
        is_boundary(s, i) <==> exists|k: int| 0 <= k <= s.len() && byte_offset(s, k) == i,
        is_boundary(s, 0),
        is_boundary(s, text_bytes(s).len() as int),
{
    if is_boundary(s, i) {
        lemma_boundary_is_offset(s, i);
    }
    if exists|k: int| 0 <= k <= s.len() && byte_offset(s, k) == i {
        let k = choose|k: int| 0 <= k <= s.len() && byte_offset(s, k) == i;
        lemma_offset_is_boundary(s, k);
    }
    lemma_offset_full(s);
    lemma_offset_is_boundary(s, 0);
    lemma_offset_is_boundary(s, s.len() as int);
}

} // verus!
