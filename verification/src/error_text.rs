//! Errors as texts.
use vstd::prelude::*;
use vstd::string::StringExecFns;
use crate::bigint::limbs_value;
use crate::error::Error;
use crate::error::ErrorView;
use crate::field::FieldModel;
use crate::field_fr::Fr;

verus! {

/// The digit of a number below ten.
pub open spec fn digit(n: nat) -> Seq<char> {
    if n == 0 {
        "0"@
    } else if n == 1 {
        "1"@
    } else if n == 2 {
        "2"@
    } else if n == 3 {
        "3"@
    } else if n == 4 {
        "4"@
    } else if n == 5 {
        "5"@
    } else if n == 6 {
        "6"@
    } else if n == 7 {
        "7"@
    } else if n == 8 {
        "8"@
    } else {
        "9"@
    }
}

/// A number in decimal digits.
pub open spec fn decimal(n: nat) -> Seq<char>
    decreases n,
{
    if n < 10 {
        digit(n)
    } else {
        decimal(n / 10) + digit(n % 10)
    }
}

/// A text in quotes.
pub open spec fn quoted(s: Seq<char>) -> Seq<char> {
    "\""@ + s + "\""@
}

/// The first `n` field elements, with commas between them.
pub open spec fn listed(v: Seq<Fr>, n: nat) -> Seq<char>
    decreases n,
{
    if n == 0 {
        ""@
    } else if n == 1 {
        decimal(v[0].val())
    } else {
        listed(v, (n - 1) as nat) + ", "@ + decimal(v[n - 1].val())
    }
}

/// The first `n` names and sizes, with commas between them.
pub open spec fn listed_sizes(v: Seq<(Seq<char>, usize)>, n: nat) -> Seq<char>
    decreases n,
{
    if n == 0 {
        ""@
    } else {
        let entry = "("@ + quoted(v[n - 1].0) + ", "@ + decimal(v[n - 1].1 as nat) + ")"@;
        if n == 1 {
            entry
        } else {
            listed_sizes(v, (n - 1) as nat) + ", "@ + entry
        }
    }
}

/// Which error it is, with what it holds. A text that it holds stands in quotes as it is.
pub open spec fn error_text(e: ErrorView) -> Seq<char> {
    match e {
        ErrorView::IncorrectBlinding(h, v) => "IncorrectBlinding("@ + (if h {
            "true"@
        } else {
            "false"@
        }) + ", ["@ + listed(v, v.len()) + "])"@,
        ErrorView::NoMultiInstances => "NoMultiInstances"@,
        ErrorView::NotSameLength(a, n, b, m) => "NotSameLength("@ + quoted(a) + ", "@ + decimal(n as nat) + ", "@
            + quoted(b) + ", "@ + decimal(m as nat) + ")"@,
        ErrorView::NotExpectedLength(n, m) => "NotExpectedLength("@ + decimal(n as nat) + ", "@ + decimal(m as nat)
            + ")"@,
        ErrorView::MaxStep => "MaxStep"@,
        ErrorView::OutOfBounds => "OutOfBounds"@,
        ErrorView::NotEqual => "NotEqual"@,
        ErrorView::NotSatisfied => "NotSatisfied"@,
        ErrorView::CommitmentFail => "CommitmentFail"@,
        ErrorView::IVCVerificationFail => "IVCVerificationFail"@,
        ErrorView::NotEnoughSteps => "NotEnoughSteps"@,
        ErrorView::SNARKVerificationFail => "SNARKVerificationFail"@,
        ErrorView::MissingValue(s) => "MissingValue("@ + quoted(s) + ")"@,
        ErrorView::CapErr(v) => "CapErr(["@ + listed_sizes(v, v.len()) + "])"@,
        ErrorView::NotSupported(s) => "NotSupported("@ + quoted(s) + ")"@,
        ErrorView::Other(s) => "Other("@ + quoted(s) + ")"@,
    }
}

fn digit_text(n: u64) -> (r: &'static str)
    requires
        n < 10,
    ensures
        r@ == digit(n as nat),
{
    match n {
        0 => "0",
        1 => "1",
        2 => "2",
        3 => "3",
        4 => "4",
        5 => "5",
        6 => "6",
        7 => "7",
        8 => "8",
        _ => "9",
    }
}

/// The quotient of two limbs, the upper one below ten, by ten, and the remainder.
fn limb_div_ten(high: u64, low: u64) -> (r: (u64, u64))
    requires
        high < 10,
    ensures
        high * 0x1_0000_0000_0000_0000 + low == 10 * r.0 + r.1,
        r.1 < 10,
{
    let n: u128 = high as u128 * 0x1_0000_0000_0000_0000u128 + low as u128;
    ((n / 10) as u64, (n % 10) as u64)
}

/// The quotient of a number by ten, and the remainder.
fn div_ten(n: [u64; 4]) -> (r: ([u64; 4], u64))
    ensures
        limbs_value(n) == 10 * limbs_value(r.0) + r.1,
        r.1 < 10,
{
    let (q3, r3) = limb_div_ten(0, n[3]);
    let (q2, r2) = limb_div_ten(r3, n[2]);
    let (q1, r1) = limb_div_ten(r2, n[1]);
    let (q0, r0) = limb_div_ten(r1, n[0]);
    ([q0, q1, q2, q3], r0)
}

/// A number in decimal digits.
fn limbs_text(n: [u64; 4]) -> (s: String)
    ensures
        s@ == decimal(limbs_value(n)),
    decreases limbs_value(n),
{
    let (q, r) = div_ten(n);
    if q[0] == 0 && q[1] == 0 && q[2] == 0 && q[3] == 0 {
        assert(limbs_value(q) == 0);
        digit_text(r).to_owned()
    } else {
        assert(limbs_value(q) > 0);
        let mut s = limbs_text(q);
        s.append(digit_text(r));
        s
    }
}

fn size_text(n: usize) -> (s: String)
    ensures
        s@ == decimal(n as nat),
{
    let limbs: [u64; 4] = [n as u64, 0, 0, 0];
    assert(limbs_value(limbs) == n);
    limbs_text(limbs)
}

fn quote(s: &String) -> (r: String)
    ensures
        r@ == quoted(s@),
{
    let mut r: String = "\"".to_owned();
    r.append(s.as_str());
    r.append("\"");
    r
}

fn list(v: &Vec<Fr>) -> (s: String)
    ensures
        s@ == listed(v@, v@.len()),
{
    let mut s: String = "".to_owned();
    let mut i: usize = 0;
    while i < v.len()
        invariant
            i <= v@.len(),
            s@ == listed(v@, i as nat),
        decreases v.len() - i,
    {
        let t = limbs_text(v[i].limbs());
        if i == 0 {
            s = t;
        } else {
            s.append(", ");
            s.append(t.as_str());
        }
        i = i + 1;
    }
    s
}

fn list_sizes(v: &Vec<(String, usize)>) -> (s: String)
    ensures
        s@ == listed_sizes(v@.map_values(|p: (String, usize)| (p.0@, p.1)), v@.len()),
{
    let ghost sizes = v@.map_values(|p: (String, usize)| (p.0@, p.1));
    let mut s: String = "".to_owned();
    let mut i: usize = 0;
    while i < v.len()
        invariant
            i <= v@.len(),
            sizes == v@.map_values(|p: (String, usize)| (p.0@, p.1)),
            s@ == listed_sizes(sizes, i as nat),
        decreases v.len() - i,
    {
        assert(sizes[i as int] == (v@[i as int].0@, v@[i as int].1));
        let mut t: String = "(".to_owned();
        t.append(quote(&v[i].0).as_str());
        t.append(", ");
        t.append(size_text(v[i].1).as_str());
        t.append(")");
        if i == 0 {
            s = t;
        } else {
            s.append(", ");
            s.append(t.as_str());
        }
        i = i + 1;
    }
    s
}

/// A name before a text in brackets and quotes.
fn holding(name: &str, s: &String) -> (r: String)
    ensures
        r@ == name@ + quoted(s@) + ")"@,
{
    let mut r: String = name.to_owned();
    r.append(quote(s).as_str());
    r.append(")");
    r
}

impl Error {
    /// Which error it is, with what it holds.
    pub fn text(&self) -> (s: String)
        ensures
            s@ == error_text(self@),
    {
        match self {
            Error::IncorrectBlinding(h, v) => {
                let mut s: String = "IncorrectBlinding(".to_owned();
                if *h {
                    s.append("true");
                } else {
                    s.append("false");
                }
                s.append(", [");
                s.append(list(v).as_str());
                s.append("])");
                s
            },
            Error::NoMultiInstances => "NoMultiInstances".to_owned(),
            Error::NotSameLength(a, n, b, m) => {
                let mut s: String = "NotSameLength(".to_owned();
                s.append(quote(a).as_str());
                s.append(", ");
                s.append(size_text(*n).as_str());
                s.append(", ");
                s.append(quote(b).as_str());
                s.append(", ");
                s.append(size_text(*m).as_str());
                s.append(")");
                s
            },
            Error::NotExpectedLength(n, m) => {
                let mut s: String = "NotExpectedLength(".to_owned();
                s.append(size_text(*n).as_str());
                s.append(", ");
                s.append(size_text(*m).as_str());
                s.append(")");
                s
            },
            Error::MaxStep => "MaxStep".to_owned(),
            Error::OutOfBounds => "OutOfBounds".to_owned(),
            Error::NotEqual => "NotEqual".to_owned(),
            Error::NotSatisfied => "NotSatisfied".to_owned(),
            Error::CommitmentFail => "CommitmentFail".to_owned(),
            Error::IVCVerificationFail => "IVCVerificationFail".to_owned(),
            Error::NotEnoughSteps => "NotEnoughSteps".to_owned(),
            Error::SNARKVerificationFail => "SNARKVerificationFail".to_owned(),
            Error::MissingValue(s) => holding("MissingValue(", s),
            Error::CapErr(v) => {
                let mut s: String = "CapErr([".to_owned();
                s.append(list_sizes(v).as_str());
                s.append("])");
                s
            },
            Error::NotSupported(s) => holding("NotSupported(", s),
            Error::Other(s) => holding("Other(", s),
        }
    }
}

} // verus!
