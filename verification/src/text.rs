//! Character-level utilities shared by the extraction rules: decimal digit
//! strings, scanning for a separator, and joining fields with a separator.

use vstd::prelude::*;
use vstd::string::*;

verus! {

// ---------- decimal digits ----------

pub open spec fn is_digit_char(c: char) -> bool {
    '0' <= c && c <= '9'
}

pub open spec fn digit_char_val(c: char) -> nat {
    (c as int - '0' as int) as nat
}

pub open spec fn all_digit_chars(s: Seq<char>) -> bool {
    forall|i: int| 0 <= i < s.len() ==> is_digit_char(#[trigger] s[i])
}

/// Numeric value of a run of decimal digits, most significant first.
pub open spec fn digits_val(s: Seq<char>) -> nat
    decreases s.len(),
{
    if s.len() == 0 {
        0
    } else {
        digits_val(s.drop_last()) * 10 + digit_char_val(s.last())
    }
}

pub open spec fn pow10(n: nat) -> nat
    decreases n,
{
    if n == 0 {
        1
    } else {
        10 * pow10((n - 1) as nat)
    }
}

pub proof fn lemma_pow10_mono(a: nat, b: nat)
    requires
        a <= b,
    ensures
        pow10(a) <= pow10(b),
        pow10(a) >= 1,
    decreases b,
{
    if b > 0 {
        if a == b {
            lemma_pow10_mono((a - 1) as nat, (b - 1) as nat);
        } else {
            lemma_pow10_mono(a, (b - 1) as nat);
        }
    }
}

pub proof fn lemma_pow10_15()
    ensures
        pow10(15) == 1000000000000000,
{
    reveal_with_fuel(pow10, 17);
}

pub proof fn lemma_pow10_small()
    ensures
        pow10(0) == 1,
        pow10(1) == 10,
        pow10(2) == 100,
        pow10(3) == 1000,
        pow10(4) == 10000,
{
    reveal_with_fuel(pow10, 6);
}

pub proof fn lemma_pow10_add(a: nat, b: nat)
    ensures
        pow10(a + b) == pow10(a) * pow10(b),
    decreases b,
{
    if b == 0 {
        assert(pow10(a) * 1 == pow10(a)) by (nonlinear_arith);
    } else {
        lemma_pow10_add(a, (b - 1) as nat);
        assert(pow10(a + b) == 10 * pow10((a + b - 1) as nat));
        assert(10 * (pow10(a) * pow10((b - 1) as nat)) == pow10(a) * (10 * pow10(
            (b - 1) as nat,
        ))) by (nonlinear_arith);
    }
}

pub proof fn lemma_digits_val_bound(s: Seq<char>)
    requires
        all_digit_chars(s),
    ensures
        digits_val(s) < pow10(s.len()),
    decreases s.len(),
{
    if s.len() > 0 {
        assert(all_digit_chars(s.drop_last())) by {
            assert(forall|i: int|
                0 <= i < s.len() - 1 ==> s.drop_last()[i] == #[trigger] s[i]);
        }
        lemma_digits_val_bound(s.drop_last());
        assert(is_digit_char(s.last()));
        assert(digit_char_val(s.last()) <= 9);
    }
}

pub proof fn lemma_digits_val_concat(a: Seq<char>, b: Seq<char>)
    ensures
        digits_val(a + b) == digits_val(a) * pow10(b.len()) + digits_val(b),
    decreases b.len(),
{
    if b.len() == 0 {
        assert(a + b =~= a);
        assert(pow10(0) == 1);
        assert(digits_val(b) == 0);
        assert(digits_val(a) * 1 == digits_val(a)) by (nonlinear_arith);
    } else {
        lemma_digits_val_concat(a, b.drop_last());
        assert((a + b).drop_last() =~= a + b.drop_last());
        assert((a + b).last() == b.last());
        let m = (b.len() - 1) as nat;
        assert(pow10(b.len()) == 10 * pow10(m));
        assert((digits_val(a) * pow10(m) + digits_val(b.drop_last())) * 10 == digits_val(a) * (10
            * pow10(m)) + digits_val(b.drop_last()) * 10) by (nonlinear_arith);
        assert(digits_val(a + b) == digits_val(a + b.drop_last()) * 10 + digit_char_val(b.last()));
        assert(digits_val(a + b) == (digits_val(a) * pow10(m) + digits_val(b.drop_last())) * 10
            + digit_char_val(b.last()));
        assert(digits_val(a) * (10 * pow10(m)) == digits_val(a) * pow10(b.len()));
        assert(digits_val(b) == digits_val(b.drop_last()) * 10 + digit_char_val(b.last()));
    }
}

// ---------- scanning for a separator ----------

/// Index of the first occurrence of `c` in `s` at or after position `i`;
/// the length of `s` when there is none.
pub open spec fn find_char_from(s: Seq<char>, c: char, i: int) -> int
    decreases s.len() - i,
{
    if i < 0 || i >= s.len() {
        s.len() as int
    } else if s[i] == c {
        i
    } else {
        find_char_from(s, c, i + 1)
    }
}

pub proof fn lemma_find_char_from(s: Seq<char>, c: char, i: int)
    requires
        0 <= i <= s.len(),
    ensures
        i <= find_char_from(s, c, i) <= s.len(),
        find_char_from(s, c, i) < s.len() ==> s[find_char_from(s, c, i)] == c,
        forall|j: int| i <= j < find_char_from(s, c, i) ==> s[j] != c,
    decreases s.len() - i,
{
    if i < s.len() && s[i] != c {
        lemma_find_char_from(s, c, i + 1);
    }
}

/// The first occurrence is the unique position with nothing matching before it.
pub proof fn lemma_find_char_from_unique(s: Seq<char>, c: char, p: int)
    requires
        0 <= p < s.len(),
        s[p] == c,
        forall|j: int| 0 <= j < p ==> s[j] != c,
    ensures
        find_char_from(s, c, 0) == p,
{
    lemma_find_char_from(s, c, 0);
}

/// Exec counterpart of `find_char_from`, starting the scan at `from`.
pub fn find_char(s: &str, c: char, from: usize) -> (r: usize)
    requires
        from <= s@.len(),
    ensures
        r == find_char_from(s@, c, from as int),
        from <= r <= s@.len(),
{
    let n = s.unicode_len();
    let mut i = from;
    while i < n
        invariant
            from <= i <= n,
            n == s@.len(),
            find_char_from(s@, c, from as int) == find_char_from(s@, c, i as int),
        decreases n - i,
    {
        if s.get_char(i) == c {
            return i;
        }
        assert(find_char_from(s@, c, i as int) == find_char_from(s@, c, i + 1));
        i = i + 1;
    }
    i
}

/// Reads the value of the all-digit run `s[from..to]`, or reports that some
/// character in it is not a digit.
pub fn read_digits_u64(s: &str, from: usize, to: usize) -> (r: Option<u64>)
    requires
        from <= to <= s@.len(),
        to - from <= 15,
    ensures
        match r {
            Some(v) => all_digit_chars(s@.subrange(from as int, to as int)) && v
                == digits_val(s@.subrange(from as int, to as int)),
            None => !all_digit_chars(s@.subrange(from as int, to as int)),
        },
{
    let mut v: u64 = 0;
    let mut i = from;
    while i < to
        invariant
            from <= i <= to,
            to <= s@.len(),
            to - from <= 15,
            all_digit_chars(s@.subrange(from as int, i as int)),
            v == digits_val(s@.subrange(from as int, i as int)),
        decreases to - i,
    {
        let c = s.get_char(i);
        let cv = c as u32;
        if cv < 48 || cv > 57 {
            proof {
                assert(!is_digit_char(s@.subrange(from as int, to as int)[i - from]));
            }
            return None;
        }
        proof {
            let pre = s@.subrange(from as int, i as int);
            lemma_digits_val_bound(pre);
            lemma_pow10_mono(pre.len(), 14);
            lemma_pow10_15();
            assert(pow10(14) * 10 == pow10(15));
        }
        v = v * 10 + ((cv - 48) as u64);
        i = i + 1;
        proof {
            let pre = s@.subrange(from as int, i as int);
            assert(pre.drop_last() =~= s@.subrange(from as int, i - 1));
            assert(pre.last() == s@[i - 1]);
        }
    }
    proof {
        assert(s@.subrange(from as int, i as int) =~= s@.subrange(from as int, to as int));
    }
    Some(v)
}

// ---------- digit rendering ----------

pub open spec fn digit_char_of(n: nat) -> char {
    if n == 0 {
        '0'
    } else if n == 1 {
        '1'
    } else if n == 2 {
        '2'
    } else if n == 3 {
        '3'
    } else if n == 4 {
        '4'
    } else if n == 5 {
        '5'
    } else if n == 6 {
        '6'
    } else if n == 7 {
        '7'
    } else if n == 8 {
        '8'
    } else {
        '9'
    }
}

pub fn digit_str(n: u32) -> (r: &'static str)
    requires
        n < 10,
    ensures
        r@ =~= seq![digit_char_of(n as nat)],
{
    proof {
        reveal_strlit("0");
        reveal_strlit("1");
        reveal_strlit("2");
        reveal_strlit("3");
        reveal_strlit("4");
        reveal_strlit("5");
        reveal_strlit("6");
        reveal_strlit("7");
        reveal_strlit("8");
        reveal_strlit("9");
    }
    match n {
        0 => "0",
        1 => "1",
        2 => "2",
        3 => "3",
        4 => "4",
        5 => "5",
        6 => "6",
        7 => "7",
        8 => "8",
        _ => "9",
    }
}

pub open spec fn two_digits_of(n: nat) -> Seq<char> {
    seq![digit_char_of(n / 10), digit_char_of(n % 10)]
}

pub fn two_digit_str(n: u32) -> (r: String)
    requires
        n < 100,
    ensures
        r@ =~= two_digits_of(n as nat),
{
    let mut r = String::from_str(digit_str(n / 10));
    r.append(digit_str(n % 10));
    r
}

pub open spec fn four_digits_of(n: nat) -> Seq<char> {
    seq![
        digit_char_of(n / 1000),
        digit_char_of((n / 100) % 10),
        digit_char_of((n / 10) % 10),
        digit_char_of(n % 10),
    ]
}

pub fn four_digit_str(n: u32) -> (r: String)
    requires
        n < 10000,
    ensures
        r@ =~= four_digits_of(n as nat),
{
    let mut r = String::from_str(digit_str(n / 1000));
    r.append(digit_str((n / 100) % 10));
    r.append(digit_str((n / 10) % 10));
    r.append(digit_str(n % 10));
    r
}

// ---------- joining fields ----------

/// The fields joined into one string with `sep` between consecutive fields.
pub open spec fn joined_with(fields: Seq<Seq<char>>, sep: char) -> Seq<char>
    decreases fields.len(),
{
    if fields.len() == 0 {
        Seq::empty()
    } else if fields.len() == 1 {
        fields[0]
    } else {
        fields[0] + seq![sep] + joined_with(fields.drop_first(), sep)
    }
}

pub proof fn lemma_joined_with_push(fields: Seq<Seq<char>>, f: Seq<char>, sep: char)
    ensures
        joined_with(fields.push(f), sep) == if fields.len() == 0 {
            f
        } else {
            joined_with(fields, sep) + seq![sep] + f
        },
    decreases fields.len(),
{
    if fields.len() == 0 {
        assert(joined_with(fields.push(f), sep) == fields.push(f)[0]);
        assert(fields.push(f)[0] == f);
    } else if fields.len() == 1 {
        assert(fields.push(f).drop_first() =~= seq![f]);
        assert(joined_with(seq![f], sep) == f);
        assert(fields.push(f)[0] == fields[0]);
    } else {
        lemma_joined_with_push(fields.drop_first(), f, sep);
        assert(fields.push(f).drop_first() =~= fields.drop_first().push(f));
        assert(fields.push(f)[0] == fields[0]);
        assert(fields[0] + seq![sep] + (joined_with(fields.drop_first(), sep) + seq![sep] + f)
            =~= (fields[0] + seq![sep] + joined_with(fields.drop_first(), sep)) + seq![sep] + f);
    }
}

/// Joins the fields with a one-character separator.
pub fn join_with(fields: &Vec<String>, sep: &str) -> (r: String)
    requires
        sep@.len() == 1,
    ensures
        r@ == joined_with(fields.deep_view(), sep@[0]),
{
    let ghost dv = fields.deep_view();
    let mut r = String::new();
    let mut i: usize = 0;
    while i < fields.len()
        invariant
            0 <= i <= fields.len(),
            sep@.len() == 1,
            dv == fields.deep_view(),
            dv.len() == fields.len(),
            r@ == joined_with(dv.take(i as int), sep@[0]),
        decreases fields.len() - i,
    {
        if i > 0 {
            r.append(sep);
        }
        r.append(fields[i].as_str());
        proof {
            lemma_joined_with_push(dv.take(i as int), dv[i as int], sep@[0]);
            assert(dv.take(i + 1) =~= dv.take(i as int).push(dv[i as int]));
            assert(seq![sep@[0]] =~= sep@);
        }
        i = i + 1;
    }
    proof {
        assert(dv.take(i as int) =~= dv);
    }
    r
}

/// Whether no field contains the separator.
pub open spec fn sep_free(fields: Seq<Seq<char>>, sep: char) -> bool {
    forall|i: int| 0 <= i < fields.len() ==> !(#[trigger] fields[i]).contains(sep)
}

/// Two equally long lists of separator-free fields join to the same string
/// only when they are the same list: a change to any field changes the
/// joined string.
pub proof fn lemma_joined_with_injective(a: Seq<Seq<char>>, b: Seq<Seq<char>>, sep: char)
    requires
        sep_free(a, sep),
        sep_free(b, sep),
        a.len() == b.len(),
        joined_with(a, sep) == joined_with(b, sep),
    ensures
        a =~= b,
    decreases a.len(),
{
    if a.len() <= 1 {
        if a.len() == 1 {
            assert(a[0] == joined_with(a, sep));
            assert(b[0] == joined_with(b, sep));
        }
    } else {
        let ja = joined_with(a, sep);
        let jb = joined_with(b, sep);
        assert(ja == a[0] + seq![sep] + joined_with(a.drop_first(), sep));
        assert(jb == b[0] + seq![sep] + joined_with(b.drop_first(), sep));
        lemma_first_sep_position(a[0], joined_with(a.drop_first(), sep), sep);
        lemma_first_sep_position(b[0], joined_with(b.drop_first(), sep), sep);
        assert(find_char_from(ja, sep, 0) == a[0].len());
        assert(find_char_from(jb, sep, 0) == b[0].len());
        assert(a[0].len() == b[0].len());
        assert(a[0] =~= ja.subrange(0, a[0].len() as int));
        assert(b[0] =~= jb.subrange(0, b[0].len() as int));
        assert(joined_with(a.drop_first(), sep) =~= ja.subrange(
            a[0].len() as int + 1,
            ja.len() as int,
        ));
        assert(joined_with(b.drop_first(), sep) =~= jb.subrange(
            b[0].len() as int + 1,
            jb.len() as int,
        ));
        assert(sep_free(a.drop_first(), sep)) by {
            assert(forall|i: int|
                0 <= i < a.len() - 1 ==> a.drop_first()[i] == #[trigger] a[i + 1]);
        }
        assert(sep_free(b.drop_first(), sep)) by {
            assert(forall|i: int|
                0 <= i < b.len() - 1 ==> b.drop_first()[i] == #[trigger] b[i + 1]);
        }
        lemma_joined_with_injective(a.drop_first(), b.drop_first(), sep);
        assert(a =~= seq![a[0]] + a.drop_first());
        assert(b =~= seq![b[0]] + b.drop_first());
    }
}

/// In `x + [sep] + y` with `x` separator-free, the first separator stands
/// exactly at `x.len()`.
proof fn lemma_first_sep_position(x: Seq<char>, y: Seq<char>, sep: char)
    requires
        !x.contains(sep),
    ensures
        find_char_from(x + seq![sep] + y, sep, 0) == x.len(),
{
    let s = x + seq![sep] + y;
    assert(s[x.len() as int] == sep);
    assert(forall|j: int| 0 <= j < x.len() ==> s[j] == x[j]);
    assert forall|j: int| 0 <= j < x.len() implies s[j] != sep by {
        assert(x[j] == s[j]);
        if x[j] == sep {
            assert(x.contains(sep));
        }
    }
    lemma_find_char_from_unique(s, sep, x.len() as int);
}

} // verus!
