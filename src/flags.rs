//! Parsing of symbolic open-mode flag strings such as `"O_WRONLY|O_CREAT"`.
use vstd::prelude::*;

verus! {

/// Relies on the open-mode constants of `libc` as defined for Linux with
/// glibc on x86_64:
/// `O_RDONLY`, `O_WRONLY`, `O_RDWR`, `O_CREAT`, `O_EXCL`, `O_TRUNC`,
/// `O_APPEND`, `O_DIRECTORY`, `O_CLOEXEC`, `O_NOCTTY`, `O_NONBLOCK`,
/// `O_ASYNC`, `O_DIRECT` and `O_LARGEFILE`, in that order.
#[verifier::external_body]
fn native_open_flags() -> (r: [i32; 14])
    ensures
        r@ == open_flag_values(),
{
    [
        libc::O_RDONLY, libc::O_WRONLY, libc::O_RDWR, libc::O_CREAT, libc::O_EXCL,
        libc::O_TRUNC, libc::O_APPEND, libc::O_DIRECTORY, libc::O_CLOEXEC, libc::O_NOCTTY,
        libc::O_NONBLOCK, libc::O_ASYNC, libc::O_DIRECT, libc::O_LARGEFILE,
    ]
}

/// The native values of the recognised flags, in table order.
pub open spec fn open_flag_values() -> Seq<i32> {
    seq![0i32, 1, 2, 0o100, 0o200, 0o1000, 0o2000, 0o200000, 0o2000000, 0o400, 0o4000, 0o20000, 0o40000, 0]
}

/// The native value of the read-only flag, used when no flags are given.
pub open spec fn o_rdonly() -> i32 {
    open_flag_values()[0]
}

/// The native value of the create flag.
pub open spec fn o_creat() -> i32 {
    open_flag_values()[3]
}

/// The value a single (already trimmed) token contributes; unknown tokens
/// contribute nothing.
pub open spec fn flag_value(tok: Seq<char>) -> i32 {
    let v = open_flag_values();
    if tok == "O_RDONLY"@ { v[0] }
    else if tok == "O_WRONLY"@ { v[1] }
    else if tok == "O_RDWR"@ { v[2] }
    else if tok == "O_CREAT"@ { v[3] }
    else if tok == "O_EXCL"@ { v[4] }
    else if tok == "O_TRUNC"@ { v[5] }
    else if tok == "O_APPEND"@ { v[6] }
    else if tok == "O_DIRECTORY"@ { v[7] }
    else if tok == "O_CLOEXEC"@ { v[8] }
    else if tok == "O_NOCTTY"@ { v[9] }
    else if tok == "O_NONBLOCK"@ { v[10] }
    else if tok == "O_ASYNC"@ { v[11] }
    else if tok == "O_DIRECT"@ { v[12] }
    else if tok == "O_LARGEFILE"@ { v[13] }
    else { 0 }
}

/// Unicode `White_Space`, the characters `str::trim` removes.
pub open spec fn is_space(c: char) -> bool {
    let u = c as u32;
    (0x9 <= u <= 0xd) || u == 0x20 || u == 0x85 || u == 0xa0 || u == 0x1680
        || (0x2000 <= u <= 0x200a) || u == 0x2028 || u == 0x2029 || u == 0x202f
        || u == 0x205f || u == 0x3000
}

pub open spec fn trim_start(t: Seq<char>) -> Seq<char>
    decreases t.len(),
{
    if t.len() > 0 && is_space(t[0]) {
        trim_start(t.drop_first())
    } else {
        t
    }
}

pub open spec fn trim_end(t: Seq<char>) -> Seq<char>
    decreases t.len(),
{
    if t.len() > 0 && is_space(t.last()) {
        trim_end(t.drop_last())
    } else {
        t
    }
}

/// A token with surrounding white space removed.
pub open spec fn trim(t: Seq<char>) -> Seq<char> {
    trim_end(trim_start(t))
}

/// The pieces of `s` between `|` separators; there is always at least one.
pub open spec fn tokens(s: Seq<char>) -> Seq<Seq<char>>
    decreases s.len(),
{
    if s.len() == 0 {
        seq![Seq::empty()]
    } else {
        let p = tokens(s.drop_last());
        if s.last() == '|' {
            p.push(Seq::empty())
        } else {
            p.update(p.len() - 1, p.last().push(s.last()))
        }
    }
}

/// The bitwise or of the values of the trimmed tokens.
pub open spec fn mask_of(toks: Seq<Seq<char>>) -> i32
    decreases toks.len(),
{
    if toks.len() == 0 {
        0
    } else {
        mask_of(toks.drop_last()) | flag_value(trim(toks.last()))
    }
}

/// The native bitmask a flag string stands for.
pub open spec fn flags_mask(s: Seq<char>) -> i32 {
    mask_of(tokens(s))
}

pub proof fn lemma_tokens_nonempty(s: Seq<char>)
    ensures
        tokens(s).len() >= 1,
    decreases s.len(),
{
    if s.len() > 0 {
        lemma_tokens_nonempty(s.drop_last());
    }
}

proof fn lemma_tokens_join(a: Seq<char>, b: Seq<char>)
    ensures
        tokens(a + seq!['|'] + b) == tokens(a) + tokens(b),
    decreases b.len(),
{
    let s = a + seq!['|'] + b;
    if b.len() == 0 {
        assert(s.drop_last() =~= a);
        assert(tokens(b) =~= seq![Seq::<char>::empty()]);
        assert(tokens(s) =~= tokens(a) + tokens(b));
    } else {
        let b0 = b.drop_last();
        assert(s.drop_last() =~= a + seq!['|'] + b0);
        assert(s.last() == b.last());
        lemma_tokens_join(a, b0);
        lemma_tokens_nonempty(b0);
        lemma_tokens_nonempty(a);
        assert(tokens(s) =~= tokens(a) + tokens(b));
    }
}

proof fn lemma_mask_join(x: Seq<Seq<char>>, y: Seq<Seq<char>>)
    ensures
        mask_of(x + y) == mask_of(x) | mask_of(y),
    decreases y.len(),
{
    let m = mask_of(x);
    if y.len() == 0 {
        assert(x + y =~= x);
        assert(m | 0i32 == m) by (bit_vector);
    } else {
        let y0 = y.drop_last();
        assert((x + y).drop_last() =~= x + y0);
        lemma_mask_join(x, y0);
        let a = mask_of(y0);
        let v = flag_value(trim(y.last()));
        assert((m | a) | v == m | (a | v)) by (bit_vector);
    }
}

/// The order of the names in a flag string does not matter: `a|b` and `b|a`
/// give the same bitmask, for any two flag strings `a` and `b`.
pub proof fn lemma_flag_order(a: Seq<char>, b: Seq<char>)
    ensures
        flags_mask(a + seq!['|'] + b) == flags_mask(b + seq!['|'] + a),
{
    lemma_tokens_join(a, b);
    lemma_tokens_join(b, a);
    lemma_mask_join(tokens(a), tokens(b));
    lemma_mask_join(tokens(b), tokens(a));
    let x = flags_mask(a);
    let y = flags_mask(b);
    assert(x | y == y | x) by (bit_vector);
}

fn is_space_char(c: char) -> (r: bool)
    ensures
        r == is_space(c),
{
    let u = c as u32;
    (0x9 <= u && u <= 0xd) || u == 0x20 || u == 0x85 || u == 0xa0 || u == 0x1680
        || (0x2000 <= u && u <= 0x200a) || u == 0x2028 || u == 0x2029 || u == 0x202f
        || u == 0x205f || u == 0x3000
}

/// Whether the characters `s[lo..hi]` spell `lit`.
pub(crate) fn spells(s: &str, lo: usize, hi: usize, lit: &str) -> (r: bool)
    requires
        lo <= hi <= s@.len(),
    ensures
        r == (s@.subrange(lo as int, hi as int) == lit@),
{
    let n = lit.unicode_len();
    if hi - lo != n {
        return false;
    }
    let mut k: usize = 0;
    while k < n
        invariant
            n == lit@.len(),
            hi - lo == n,
            lo <= hi <= s@.len(),
            k <= n,
            forall|j: int| 0 <= j < k ==> s@[lo + j] == lit@[j],
        decreases n - k,
    {
        if s.get_char(lo + k) != lit.get_char(k) {
            assert(s@.subrange(lo as int, hi as int)[k as int] != lit@[k as int]);
            return false;
        }
        k += 1;
    }
    assert(s@.subrange(lo as int, hi as int) =~= lit@);
    true
}

/// The value of the token `s[lo..hi]`, once trimmed.
fn token_value(s: &str, lo: usize, hi: usize, table: &[i32; 14]) -> (r: i32)
    requires
        lo <= hi <= s@.len(),
        table@ == open_flag_values(),
    ensures
        r == flag_value(trim(s@.subrange(lo as int, hi as int))),
{
    let ghost whole = s@.subrange(lo as int, hi as int);
    let mut a = lo;
    while a < hi && is_space_char(s.get_char(a))
        invariant
            lo <= a <= hi <= s@.len(),
            trim_start(whole) == trim_start(s@.subrange(a as int, hi as int)),
        decreases hi - a,
    {
        assert(s@.subrange(a as int, hi as int).drop_first() =~= s@.subrange(a + 1, hi as int));
        a += 1;
    }
    let mut b = hi;
    while b > a && is_space_char(s.get_char(b - 1))
        invariant
            lo <= a <= b <= hi <= s@.len(),
            trim(whole) == trim_end(s@.subrange(a as int, b as int)),
        decreases b - a,
    {
        assert(s@.subrange(a as int, b as int).drop_last() =~= s@.subrange(a as int, b - 1));
        b -= 1;
    }
    if spells(s, a, b, "O_RDONLY") { table[0] }
    else if spells(s, a, b, "O_WRONLY") { table[1] }
    else if spells(s, a, b, "O_RDWR") { table[2] }
    else if spells(s, a, b, "O_CREAT") { table[3] }
    else if spells(s, a, b, "O_EXCL") { table[4] }
    else if spells(s, a, b, "O_TRUNC") { table[5] }
    else if spells(s, a, b, "O_APPEND") { table[6] }
    else if spells(s, a, b, "O_DIRECTORY") { table[7] }
    else if spells(s, a, b, "O_CLOEXEC") { table[8] }
    else if spells(s, a, b, "O_NOCTTY") { table[9] }
    else if spells(s, a, b, "O_NONBLOCK") { table[10] }
    else if spells(s, a, b, "O_ASYNC") { table[11] }
    else if spells(s, a, b, "O_DIRECT") { table[12] }
    else if spells(s, a, b, "O_LARGEFILE") { table[13] }
    else { 0 }
}

/// The native read-only flag.
pub fn o_rdonly_value() -> (r: i32)
    ensures
        r == o_rdonly(),
{
    native_open_flags()[0]
}

/// The native create flag.
pub fn o_creat_value() -> (r: i32)
    ensures
        r == o_creat(),
{
    native_open_flags()[3]
}

/// Parses a `|`-separated list of flag names into the native bitmask.
/// Each token is trimmed; an unrecognised token contributes nothing.
pub fn parse_flags(s: &str) -> (r: i32)
    ensures
        r == flags_mask(s@),
{
    let table = native_open_flags();
    let n = s.unicode_len();
    let mut acc: i32 = 0;
    let mut start: usize = 0;
    let mut i: usize = 0;
    proof {
        assert(s@.subrange(0, 0) =~= Seq::<char>::empty());
    }
    while i < n
        invariant
            n == s@.len(),
            start <= i <= n,
            table@ == open_flag_values(),
            tokens(s@.subrange(0, i as int)).len() >= 1,
            tokens(s@.subrange(0, i as int)).last() == s@.subrange(start as int, i as int),
            acc == mask_of(tokens(s@.subrange(0, i as int)).drop_last()),
        decreases n - i,
    {
        let ghost pre = s@.subrange(0, i as int);
        let ghost next = s@.subrange(0, i + 1);
        proof {
            assert(next.drop_last() =~= pre);
            lemma_tokens_nonempty(pre);
        }
        let c = s.get_char(i);
        if c == '|' {
            let v = token_value(s, start, i, &table);
            proof {
                assert(tokens(next).drop_last() =~= tokens(pre));
            }
            acc = acc | v;
            start = i + 1;
            proof {
                assert(s@.subrange(start as int, i + 1) =~= Seq::<char>::empty());
            }
        } else {
            proof {
                assert(tokens(next).drop_last() =~= tokens(pre).drop_last());
                assert(s@.subrange(start as int, i + 1) =~= s@.subrange(start as int, i as int).push(c));
            }
        }
        i += 1;
    }
    let v = token_value(s, start, n, &table);
    proof {
        assert(s@.subrange(0, n as int) =~= s@);
        let t = tokens(s@);
        assert(t =~= t.drop_last().push(t.last()));
    }
    acc | v
}

} // verus!
