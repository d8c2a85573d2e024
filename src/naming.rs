//! Default names for new views: "Port 0", "Port 1", ..., taking the
//! smallest number that no open view uses.

use vstd::prelude::*;

verus! {

/// The decimal digit for `d`.
pub open spec fn digit_char(d: nat) -> char {
    if d == 0 {
        '0'
    } else if d == 1 {
        '1'
    } else if d == 2 {
        '2'
    } else if d == 3 {
        '3'
    } else if d == 4 {
        '4'
    } else if d == 5 {
        '5'
    } else if d == 6 {
        '6'
    } else if d == 7 {
        '7'
    } else if d == 8 {
        '8'
    } else {
        '9'
    }
}

/// `n` in decimal digits, without leading zeros.
pub open spec fn decimal(n: nat) -> Seq<char>
    decreases n,
{
    if n < 10 {
        seq![digit_char(n)]
    } else {
        decimal(n / 10).push(digit_char(n % 10))
    }
}

/// The default name of view number `n`.
pub open spec fn port_label_spec(n: nat) -> Seq<char> {
    "Port "@ + decimal(n)
}

proof fn lemma_decimal_nonempty(n: nat)
    ensures
        decimal(n).len() >= 1,
        n >= 10 ==> decimal(n).len() >= 2,
    decreases n,
{
    if n >= 10 {
        lemma_decimal_nonempty(n / 10);
    }
}

/// Different numbers have different decimal forms.
proof fn lemma_decimal_injective(a: nat, b: nat)
    requires
        decimal(a) == decimal(b),
    ensures
        a == b,
    decreases a,
{
    lemma_decimal_nonempty(a);
    lemma_decimal_nonempty(b);
    if a >= 10 && b >= 10 {
        assert(decimal(a).last() == digit_char(a % 10));
        assert(decimal(b).last() == digit_char(b % 10));
        assert(decimal(a).drop_last() =~= decimal(a / 10));
        assert(decimal(b).drop_last() =~= decimal(b / 10));
        lemma_decimal_injective(a / 10, b / 10);
    } else if a < 10 && b < 10 {
        assert(decimal(a)[0] == digit_char(a));
        assert(decimal(b)[0] == digit_char(b));
    }
}

/// Different numbers have different default names.
proof fn lemma_label_injective(a: nat, b: nat)
    requires
        port_label_spec(a) == port_label_spec(b),
    ensures
        a == b,
{
    reveal_strlit("Port ");
    assert(port_label_spec(a).subrange(5, port_label_spec(a).len() as int) =~= decimal(a));
    assert(port_label_spec(b).subrange(5, port_label_spec(b).len() as int) =~= decimal(b));
    lemma_decimal_injective(a, b);
}

/// Appends the decimal digits of `n`.
fn push_decimal(s: &mut String, n: usize)
    ensures
        final(s)@ == old(s)@ + decimal(n as nat),
    decreases n,
{
    if n >= 10 {
        push_decimal(s, n / 10);
    }
    let d = n % 10;
    let digits = "0123456789";
    proof {
        reveal_strlit("0123456789");
    }
    s.append(digits.substring_char(d, d + 1));
    proof {
        assert(digits@.subrange(d as int, d + 1) =~= seq![digit_char(d as nat)]);
        if n >= 10 {
            assert(old(s)@ + decimal((n / 10) as nat) + seq![digit_char(d as nat)] =~= old(s)@
                + decimal(n as nat));
        } else {
            assert(old(s)@ + seq![digit_char(d as nat)] =~= old(s)@ + decimal(n as nat));
        }
    }
}

/// The default name of view number `n`.
pub fn port_label(n: usize) -> (r: String)
    ensures
        r@ == port_label_spec(n as nat),
{
    let mut s = "Port ".to_owned();
    push_decimal(&mut s, n);
    s
}

/// How many entries are set.
spec fn count_set(s: Seq<bool>) -> nat
    decreases s.len(),
{
    if s.len() == 0 {
        0
    } else {
        count_set(s.drop_last()) + if s.last() {
            1nat
        } else {
            0nat
        }
    }
}

proof fn lemma_count_set_update(s: Seq<bool>, k: int)
    requires
        0 <= k < s.len(),
        !s[k],
    ensures
        count_set(s.update(k, true)) == count_set(s) + 1,
    decreases s.len(),
{
    if k < s.len() - 1 {
        assert(s.update(k, true).drop_last() =~= s.drop_last().update(k, true));
        lemma_count_set_update(s.drop_last(), k);
    } else {
        assert(s.update(k, true).drop_last() =~= s.drop_last());
    }
}

proof fn lemma_count_set_all(s: Seq<bool>)
    requires
        forall|i: int| 0 <= i < s.len() ==> s[i],
    ensures
        count_set(s) == s.len(),
    decreases s.len(),
{
    if s.len() > 0 {
        lemma_count_set_all(s.drop_last());
    }
}

/// Whether one of `names` is the default name of view number `m`.
pub open spec fn label_in_use(names: Seq<String>, m: nat) -> bool {
    exists|i: int| 0 <= i < names.len() && names[i]@ == port_label_spec(m)
}

/// The smallest number whose default name none of `names` is.
pub fn unused_port_index(names: &Vec<String>) -> (r: usize)
    requires
        names@.len() < usize::MAX,
    ensures
        forall|i: int| 0 <= i < names@.len() ==> names@[i]@ != port_label_spec(r as nat),
        forall|m: nat| m < r ==> #[trigger] label_in_use(names@, m),
{
    let n = names.len();
    let mut labels: Vec<String> = Vec::new();
    let mut taken: Vec<bool> = Vec::new();
    for k in 0..n + 1
        invariant
            labels@.len() == k,
            taken@.len() == k,
            forall|j: int| 0 <= j < k ==> (#[trigger] labels@[j])@ == port_label_spec(j as nat),
            forall|j: int| 0 <= j < k ==> !(#[trigger] taken@[j]),
    {
        labels.push(port_label(k));
        taken.push(false);
    }
    proof {
        assert(taken@ =~= Seq::new(taken@.len(), |j: int| false));
        lemma_count_set_zero(taken@);
    }
    for i in 0..n
        invariant
            n == names@.len(),
            n < usize::MAX,
            labels@.len() == n + 1,
            taken@.len() == n + 1,
            forall|j: int| 0 <= j <= n ==> (#[trigger] labels@[j])@ == port_label_spec(j as nat),
            count_set(taken@) <= i,
            forall|k: int|
                0 <= k <= n && #[trigger] taken@[k] ==> exists|j: int|
                    0 <= j < i && names@[j]@ == port_label_spec(k as nat),
            forall|k: int, j: int|
                #![trigger taken@[k], names@[j]]
                0 <= k <= n && 0 <= j < i && names@[j]@ == port_label_spec(k as nat)
                    ==> taken@[k],
    {
        let ghost mut hit: Option<int> = None;
        for k in 0..n + 1
            invariant
                n == names@.len(),
                n < usize::MAX,
                i < n,
                labels@.len() == n + 1,
                taken@.len() == n + 1,
                forall|j: int| 0 <= j <= n ==> (#[trigger] labels@[j])@ == port_label_spec(j as nat),
                count_set(taken@) <= i + if hit is Some {
                    1nat
                } else {
                    0nat
                },
                hit matches Some(h) ==> 0 <= h < k && names@[i as int]@ == port_label_spec(h as nat),
                forall|k2: int|
                    0 <= k2 <= n && #[trigger] taken@[k2] ==> exists|j: int|
                        0 <= j <= i && names@[j]@ == port_label_spec(k2 as nat),
                forall|k2: int, j: int|
                    #![trigger taken@[k2], names@[j]]
                    0 <= k2 <= n && 0 <= j < i && names@[j]@ == port_label_spec(k2 as nat)
                        ==> taken@[k2],
                forall|k2: int|
                    0 <= k2 < k && names@[i as int]@ == port_label_spec(k2 as nat)
                        ==> #[trigger] taken@[k2],
        {
            if names[i] == labels[k] {
                proof {
                    if let Some(h) = hit {
                        lemma_label_injective(h as nat, k as nat);
                    }
                    if !taken@[k as int] {
                        lemma_count_set_update(taken@, k as int);
                    } else {
                        assert(taken@.update(k as int, true) =~= taken@);
                    }
                }
                taken.set(k, true);
                proof {
                    hit = Some(k as int);
                }
            }
        }
    }
    for k in 0..n + 1
        invariant
            n == names@.len(),
            taken@.len() == n + 1,
            count_set(taken@) <= n,
            forall|j: int| 0 <= j < k ==> #[trigger] taken@[j],
            forall|k2: int|
                0 <= k2 <= n && #[trigger] taken@[k2] ==> exists|j: int|
                    0 <= j < n && names@[j]@ == port_label_spec(k2 as nat),
            forall|k2: int, j: int|
                #![trigger taken@[k2], names@[j]]
                0 <= k2 <= n && 0 <= j < n && names@[j]@ == port_label_spec(k2 as nat)
                    ==> taken@[k2],
    {
        if !taken[k] {
            proof {
                assert forall|m: nat| m < k implies #[trigger] label_in_use(names@, m) by {
                    assert(taken@[m as int]);
                }
            }
            return k;
        }
    }
    proof {
        lemma_count_set_all(taken@);
    }
    0
}

proof fn lemma_count_set_zero(s: Seq<bool>)
    requires
        forall|i: int| 0 <= i < s.len() ==> !s[i],
    ensures
        count_set(s) == 0,
    decreases s.len(),
{
    if s.len() > 0 {
        lemma_count_set_zero(s.drop_last());
    }
}

} // verus!
