//! The result of checking what access brightness control needs.

use vstd::prelude::*;
use vstd::string::StringExecFns;

verus! {

/// State of one requirement.
#[derive(Debug, Clone, Copy, PartialEq, Eq, Structural)]
pub enum RequirementStatus {
    Met,
    NotMet,
    NotApplicable,
    /// Some of it is met; informational, not blocking.
    Partial,
}

/// One requirement and its state.
#[derive(Debug, Clone)]
pub struct PermissionRequirement {
    pub name: String,
    pub description: String,
    pub status: RequirementStatus,
}

/// All requirements checked.
#[derive(Debug, Clone)]
pub struct PermissionCheckResult {
    pub requirements: Vec<PermissionRequirement>,
}

/// Number of requirements in `reqs` with status `s`.
pub open spec fn count_status(reqs: Seq<PermissionRequirement>, s: RequirementStatus) -> nat
    decreases reqs.len(),
{
    if reqs.len() == 0 {
        0
    } else {
        count_status(reqs.drop_last(), s) + if reqs.last().status == s {
            1nat
        } else {
            0
        }
    }
}

/// Decimal digits of `n`.
pub open spec fn spec_decimal(n: nat) -> Seq<char>
    decreases n,
{
    if n < 10 {
        seq![digit_char(n)]
    } else {
        spec_decimal(n / 10).push(digit_char(n % 10))
    }
}

pub open spec fn digit_char(d: nat) -> char {
    if d == 0 {
        '0'
    } else if d == 1 {
        '1'
    } else if d == 2 {
        '2'
    } else if d == 3 {
        '3'
    } else if d == 4 {
        '4'
    } else if d == 5 {
        '5'
    } else if d == 6 {
        '6'
    } else if d == 7 {
        '7'
    } else if d == 8 {
        '8'
    } else {
        '9'
    }
}

fn digit_text(d: usize) -> (r: &'static str)
    requires
        d < 10,
    ensures
        r@ == seq![digit_char(d as nat)],
{
    proof {
        reveal_strlit("0");
        reveal_strlit("1");
        reveal_strlit("2");
        reveal_strlit("3");
        reveal_strlit("4");
        reveal_strlit("5");
        reveal_strlit("6");
        reveal_strlit("7");
        reveal_strlit("8");
        reveal_strlit("9");
    }
    if d == 0 {
        "0"
    } else if d == 1 {
        "1"
    } else if d == 2 {
        "2"
    } else if d == 3 {
        "3"
    } else if d == 4 {
        "4"
    } else if d == 5 {
        "5"
    } else if d == 6 {
        "6"
    } else if d == 7 {
        "7"
    } else if d == 8 {
        "8"
    } else {
        "9"
    }
}

/// Writes `n` in decimal.
pub fn decimal(n: usize) -> (r: String)
    ensures
        r@ == spec_decimal(n as nat),
    decreases n,
{
    if n < 10 {
        String::from_str(digit_text(n))
    } else {
        let mut r = decimal(n / 10);
        r.append(digit_text(n % 10));
        r
    }
}

impl PermissionCheckResult {
    /// Whether some requirement is not met.
    pub fn has_issues(&self) -> (r: bool)
        ensures
            r == exists|i: int|
                0 <= i < self.requirements@.len() && (#[trigger] self.requirements@[i]).status
                    == RequirementStatus::NotMet,
    {
        let mut i: usize = 0;
        while i < self.requirements.len()
            invariant
                i <= self.requirements@.len(),
                forall|j: int|
                    0 <= j < i ==> (#[trigger] self.requirements@[j]).status != RequirementStatus::NotMet,
            decreases self.requirements.len() - i,
        {
            if self.requirements[i].status == RequirementStatus::NotMet {
                return true;
            }
            i = i + 1;
        }
        false
    }

    /// `✓ All <n> requirements met`, where n counts the met ones, when no
    /// requirement is unmet; else `<n> requirement(s) not met`.
    pub fn summary(&self) -> (r: String)
        ensures
            count_status(self.requirements@, RequirementStatus::NotMet) == 0 ==> r@ == "✓ All "@
                + spec_decimal(count_status(self.requirements@, RequirementStatus::Met)) + " requirements met"@,
            count_status(self.requirements@, RequirementStatus::NotMet) > 0 ==> r@ == spec_decimal(
                count_status(self.requirements@, RequirementStatus::NotMet),
            ) + " requirement(s) not met"@,
    {
        let not_met = count_of(&self.requirements, RequirementStatus::NotMet);
        if not_met == 0 {
            let met = count_of(&self.requirements, RequirementStatus::Met);
            let mut r = String::from_str("✓ All ");
            r.append(decimal(met).as_str());
            r.append(" requirements met");
            r
        } else {
            let mut r = decimal(not_met);
            r.append(" requirement(s) not met");
            r
        }
    }
}

fn count_of(reqs: &Vec<PermissionRequirement>, s: RequirementStatus) -> (r: usize)
    ensures
        r == count_status(reqs@, s),
{
    let mut n: usize = 0;
    let mut i: usize = 0;
    while i < reqs.len()
        invariant
            i <= reqs@.len(),
            n == count_status(reqs@.take(i as int), s),
            n <= i,
        decreases reqs.len() - i,
    {
        proof {
            assert(reqs@.take(i as int + 1).drop_last() =~= reqs@.take(i as int));
        }
        if reqs[i].status == s {
            n = n + 1;
        }
        i = i + 1;
    }
    proof {
        assert(reqs@.take(i as int) =~= reqs@);
    }
    n
}

} // verus!
