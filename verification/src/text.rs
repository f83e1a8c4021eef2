//! Small pieces of text that messages and names are built from.

use vstd::prelude::*;
use vstd::string::StringExecFns;

verus! {

/// the character of a decimal digit
pub open spec fn digit_char(d: nat) -> char {
    if d == 0 {
        '0'
    } else if d == 1 {
        '1'
    } else if d == 2 {
        '2'
    } else if d == 3 {
        '3'
    } else if d == 4 {
        '4'
    } else if d == 5 {
        '5'
    } else if d == 6 {
        '6'
    } else if d == 7 {
        '7'
    } else if d == 8 {
        '8'
    } else {
        '9'
    }
}

/// the decimal text of a number, without leading zeros
pub open spec fn decimal(n: nat) -> Seq<char>
    decreases n,
{
    if n < 10 {
        seq![digit_char(n)]
    } else {
        decimal(n / 10) + seq![digit_char(n % 10)]
    }
}

fn digit_text(d: u64) -> (r: &'static str)
    requires
        d < 10,
    ensures
        r@ == seq![digit_char(d as nat)],
{
    if d == 0 {
        proof { reveal_strlit("0"); }
        "0"
    } else if d == 1 {
        proof { reveal_strlit("1"); }
        "1"
    } else if d == 2 {
        proof { reveal_strlit("2"); }
        "2"
    } else if d == 3 {
        proof { reveal_strlit("3"); }
        "3"
    } else if d == 4 {
        proof { reveal_strlit("4"); }
        "4"
    } else if d == 5 {
        proof { reveal_strlit("5"); }
        "5"
    } else if d == 6 {
        proof { reveal_strlit("6"); }
        "6"
    } else if d == 7 {
        proof { reveal_strlit("7"); }
        "7"
    } else if d == 8 {
        proof { reveal_strlit("8"); }
        "8"
    } else {
        proof { reveal_strlit("9"); }
        "9"
    }
}

/// the decimal text of a number
pub fn decimal_text(n: u64) -> (r: String)
    ensures
        r@ == decimal(n as nat),
    decreases n,
{
    if n < 10 {
        digit_text(n).to_owned()
    } else {
        let mut s = decimal_text(n / 10);
        s.append(digit_text(n % 10));
        s
    }
}

/// the text of `a` followed by the text of `b`
pub fn concat(a: &str, b: &str) -> (r: String)
    ensures
        r@ == a@ + b@,
{
    let mut s = a.to_owned();
    s.append(b);
    s
}

/// the name `initial` with the number `k`: itself for zero, and `initial_k` otherwise
pub open spec fn numbered_name(initial: Seq<char>, k: nat) -> Seq<char> {
    if k == 0 {
        initial
    } else {
        initial + "_"@ + decimal(k)
    }
}

/// the texts of a sequence of strings
pub open spec fn texts(s: Seq<String>) -> Seq<Seq<char>> {
    s.map_values(|x: String| x@)
}

proof fn lemma_decimal_len(n: nat)
    ensures
        decimal(n).len() >= 1,
    decreases n,
{
    if n >= 10 {
        lemma_decimal_len(n / 10);
    }
}

proof fn lemma_digit_injective(a: nat, b: nat)
    requires
        a < 10,
        b < 10,
        digit_char(a) == digit_char(b),
    ensures
        a == b,
{
}

/// different numbers have different decimal texts
proof fn lemma_decimal_injective(a: nat, b: nat)
    requires
        decimal(a) == decimal(b),
    ensures
        a == b,
    decreases a,
{
    if a < 10 && b < 10 {
        assert(decimal(a)[0] == digit_char(a));
        assert(decimal(b)[0] == digit_char(b));
        lemma_digit_injective(a, b);
    } else if a < 10 {
        lemma_decimal_len(b / 10);
        assert(decimal(b).len() >= 2);
    } else if b < 10 {
        lemma_decimal_len(a / 10);
        assert(decimal(a).len() >= 2);
    } else {
        let da = decimal(a / 10);
        let db = decimal(b / 10);
        assert(decimal(a) == da + seq![digit_char(a % 10)]);
        assert(decimal(b) == db + seq![digit_char(b % 10)]);
        assert(da.len() == db.len());
        assert(decimal(a)[da.len() as int] == digit_char(a % 10));
        assert(decimal(b)[db.len() as int] == digit_char(b % 10));
        lemma_digit_injective(a % 10, b % 10);
        assert(da =~= decimal(a).subrange(0, da.len() as int));
        assert(db =~= decimal(b).subrange(0, db.len() as int));
        lemma_decimal_injective(a / 10, b / 10);
    }
}

/// different numbers give different names
proof fn lemma_numbered_injective(initial: Seq<char>, a: nat, b: nat)
    requires
        numbered_name(initial, a) == numbered_name(initial, b),
    ensures
        a == b,
{
    reveal_strlit("_");
    if a != 0 && b != 0 {
        let p = initial + "_"@;
        assert(numbered_name(initial, a) == p + decimal(a));
        assert((p + decimal(a)).subrange(p.len() as int, (p + decimal(a)).len() as int) =~= decimal(a));
        assert((p + decimal(b)).subrange(p.len() as int, (p + decimal(b)).len() as int) =~= decimal(b));
        lemma_decimal_injective(a, b);
    } else if a != 0 {
        lemma_decimal_len(a);
        assert(numbered_name(initial, a).len() > initial.len());
    } else if b != 0 {
        lemma_decimal_len(b);
        assert(numbered_name(initial, b).len() > initial.len());
    }
}

/// a map from `0..=n` into `0..n` takes two numbers to one
proof fn lemma_pigeonhole(f: spec_fn(int) -> int, n: int)
    requires
        n >= 0,
        forall|i: int| 0 <= i <= n ==> 0 <= #[trigger] f(i) < n,
    ensures
        exists|i: int, j: int| 0 <= i <= n && 0 <= j <= n && i != j && #[trigger] f(i) == #[trigger] f(j),
    decreases n,
{
    if n == 0 {
        assert(0 <= f(0) && f(0) < n);
    } else if !(exists|i: int, j: int| 0 <= i <= n && 0 <= j <= n && i != j && #[trigger] f(i) == #[trigger] f(j)) {
        let g = |i: int| if f(i) == n - 1 { f(n) } else { f(i) };
        assert forall|i: int| 0 <= i <= n - 1 implies 0 <= #[trigger] g(i) < n - 1 by {
            if f(i) == n - 1 {
                assert(f(n) != f(i));
            }
        }
        lemma_pigeonhole(g, n - 1);
        let (a, b) = choose|a: int, b: int| 0 <= a <= n - 1 && 0 <= b <= n - 1 && a != b && #[trigger] g(a) == #[trigger] g(b);
        assert(f(a) != f(b));
        assert(f(a) != f(n));
        assert(f(b) != f(n));
    }
}

/// one of the names numbered `0..=names.len()` is not among `names`
proof fn lemma_some_name_free(initial: Seq<char>, names: Seq<Seq<char>>)
    ensures
        exists|j: nat| j <= names.len() && !names.contains(#[trigger] numbered_name(initial, j)),
{
    if !(exists|j: nat| j <= names.len() && !names.contains(#[trigger] numbered_name(initial, j))) {
        let n = names.len() as int;
        let f = |j: int| choose|i: int| 0 <= i < n && names[i] == numbered_name(initial, j as nat);
        assert forall|j: int| 0 <= j <= n implies 0 <= #[trigger] f(j) < n && names[f(j)] == numbered_name(
            initial,
            j as nat,
        ) by {
            assert(names.contains(numbered_name(initial, j as nat)));
        }
        lemma_pigeonhole(f, n);
        let (a, b) = choose|a: int, b: int| 0 <= a <= n && 0 <= b <= n && a != b && #[trigger] f(a) == #[trigger] f(b);
        assert(names[f(a)] == numbered_name(initial, a as nat));
        assert(names[f(b)] == numbered_name(initial, b as nat));
        lemma_numbered_injective(initial, a as nat, b as nat);
    }
}

fn is_among(name: &String, taken: &Vec<String>) -> (r: bool)
    ensures
        r == texts(taken@).contains(name@),
{
    let mut i: usize = 0;
    while i < taken.len()
        invariant
            i <= taken@.len(),
            forall|j: int| 0 <= j < i ==> taken@[j]@ != name@,
        decreases taken@.len() - i,
    {
        if taken[i] == *name {
            assert(texts(taken@)[i as int] == name@);
            return true;
        }
        i = i + 1;
    }
    assert forall|j: int| 0 <= j < texts(taken@).len() implies texts(taken@)[j] != name@ by {
        assert(texts(taken@)[j] == taken@[j]@);
    }
    false
}

/// `name` is the first of `initial`, `initial_1`, `initial_2`, ... that is not among `taken`
pub open spec fn is_first_free_name(name: Seq<char>, initial: Seq<char>, taken: Seq<Seq<char>>) -> bool {
    exists|k: nat| {
        &&& name == #[trigger] numbered_name(initial, k)
        &&& !taken.contains(name)
        &&& forall|j: nat| j < k ==> taken.contains(#[trigger] numbered_name(initial, j))
    }
}

/// The first of `initial`, `initial_1`, `initial_2`, ... that is not among `taken`.
pub fn unique_name(initial: &str, taken: &Vec<String>) -> (r: String)
    ensures
        is_first_free_name(r@, initial@, texts(taken@)),
{
    let mut k: usize = 0;
    loop
        invariant
            k <= taken@.len(),
            forall|j: nat| j < k ==> texts(taken@).contains(#[trigger] numbered_name(initial@, j)),
        decreases taken@.len() - k,
    {
        let candidate = if k == 0 {
            initial.to_owned()
        } else {
            concat(&concat(initial, "_"), &decimal_text(k as u64))
        };
        assert(candidate@ == numbered_name(initial@, k as nat));
        if !is_among(&candidate, taken) {
            assert(is_first_free_name(candidate@, initial@, texts(taken@)));
            return candidate;
        }
        if k == taken.len() {
            proof {
                lemma_some_name_free(initial@, texts(taken@));
                let j = choose|j: nat| j <= texts(taken@).len() && !texts(taken@).contains(#[trigger] numbered_name(initial@, j));
                assert(j < k || j == k);
            }
        }
        k = k + 1;
    }
}

} // verus!
