//! The names of the generated machine. Each is derived from a position in
//! the graph, so that the same graph always gets the same names.

use vstd::prelude::*;
use vstd::string::StringExecFns;
use crate::repr::BlockName;

verus! {

/// The character of one decimal digit.
pub open spec fn digit(d: nat) -> char {
    if d == 0 {
        '0'
    } else if d == 1 {
        '1'
    } else if d == 2 {
        '2'
    } else if d == 3 {
        '3'
    } else if d == 4 {
        '4'
    } else if d == 5 {
        '5'
    } else if d == 6 {
        '6'
    } else if d == 7 {
        '7'
    } else if d == 8 {
        '8'
    } else {
        '9'
    }
}

/// The number in decimal, without leading zeros.
pub open spec fn decimal(n: nat) -> Seq<char>
    decreases n,
{
    if n < 10 {
        seq![digit(n)]
    } else {
        decimal(n / 10).push(digit(n % 10))
    }
}

fn digit_str(d: usize) -> (r: &'static str)
    requires
        d < 10,
    ensures
        r@ == seq![digit(d as nat)],
{
    proof {
        reveal_strlit("0");
        reveal_strlit("1");
        reveal_strlit("2");
        reveal_strlit("3");
        reveal_strlit("4");
        reveal_strlit("5");
        reveal_strlit("6");
        reveal_strlit("7");
        reveal_strlit("8");
        reveal_strlit("9");
    }
    let r = if d == 0 {
        "0"
    } else if d == 1 {
        "1"
    } else if d == 2 {
        "2"
    } else if d == 3 {
        "3"
    } else if d == 4 {
        "4"
    } else if d == 5 {
        "5"
    } else if d == 6 {
        "6"
    } else if d == 7 {
        "7"
    } else if d == 8 {
        "8"
    } else {
        "9"
    };
    assert(r@ =~= seq![digit(d as nat)]);
    r
}

/// Appends the number in decimal.
pub fn push_decimal(s: &mut String, n: usize)
    ensures
        final(s)@ == old(s)@ + decimal(n as nat),
    decreases n,
{
    if n < 10 {
        s.append(digit_str(n));
    } else {
        push_decimal(s, n / 10);
        s.append(digit_str(n % 10));
        assert(s@ =~= old(s)@ + decimal(n as nat));
    }
}

impl BlockName {
    /// The role as it appears in the name of a state.
    pub open spec fn text(self) -> Seq<char> {
        match self {
            BlockName::Start => "Start"@,
            BlockName::End => "End"@,
            BlockName::Then => "Then"@,
            BlockName::Else => "Else"@,
            BlockName::EndIf => "EndIf"@,
            BlockName::Loop => "Loop"@,
            BlockName::LoopExit => "LoopExit"@,
            BlockName::Arm => "Arm"@,
            BlockName::EndMatch => "EndMatch"@,
            BlockName::AfterSuspend => "AfterSuspend"@,
            BlockName::AfterBreak => "AfterBreak"@,
            BlockName::AfterContinue => "AfterContinue"@,
            BlockName::AfterReturn => "AfterReturn"@,
        }
    }

    pub fn as_str(self) -> (r: &'static str)
        ensures
            r@ == self.text(),
    {
        match self {
            BlockName::Start => "Start",
            BlockName::End => "End",
            BlockName::Then => "Then",
            BlockName::Else => "Else",
            BlockName::EndIf => "EndIf",
            BlockName::Loop => "Loop",
            BlockName::LoopExit => "LoopExit",
            BlockName::Arm => "Arm",
            BlockName::EndMatch => "EndMatch",
            BlockName::AfterSuspend => "AfterSuspend",
            BlockName::AfterBreak => "AfterBreak",
            BlockName::AfterContinue => "AfterContinue",
            BlockName::AfterReturn => "AfterReturn",
        }
    }
}

/// The name of the state type.
pub const STATE_TYPE: &'static str = "State";

/// The name of the variant of the state that must not be driven: the
/// state in which a machine is while it takes a step, and after it has
/// finished.
pub const ILLEGAL_STATE: &'static str = "Illegal";

/// The name of the state of a block: `State`, the block's position, and
/// the role in which the block was started, if it has one.
pub open spec fn state_name(block: nat, name: Option<BlockName>) -> Seq<char> {
    "State"@ + decimal(block) + match name {
        Some(name) => name.text(),
        None => Seq::empty(),
    }
}

/// The name under which the value of a shadowed local survives: the name
/// of the local, `_shadowed_`, and the local's position.
pub open spec fn shadowed_name(ident: Seq<char>, local: nat) -> Seq<char> {
    ident + "_shadowed_"@ + decimal(local)
}

/// The name of the type parameter that stands for the type of a local: `T`
/// and the local's position.
pub open spec fn ty_param_name(local: nat) -> Seq<char> {
    "T"@ + decimal(local)
}

/// The name that binds one captured scope in the arm of an adapter:
/// `scope` and the scope's position.
pub open spec fn scope_name(scope: nat) -> Seq<char> {
    "scope"@ + decimal(scope)
}

pub fn state_id_of(block: usize, name: Option<BlockName>) -> (r: String)
    ensures
        r@ == state_name(block as nat, name),
{
    let mut r = String::from_str("State");
    push_decimal(&mut r, block);
    match name {
        Some(name) => {
            r.append(name.as_str());
        },
        None => {
            assert(r@ + Seq::<char>::empty() =~= r@);
        },
    }
    r
}

pub fn shadowed_ident_of(ident: &String, local: usize) -> (r: String)
    ensures
        r@ == shadowed_name(ident@, local as nat),
{
    let mut r = ident.clone();
    r.append("_shadowed_");
    push_decimal(&mut r, local);
    r
}

pub fn ty_param_ident(local: usize) -> (r: String)
    ensures
        r@ == ty_param_name(local as nat),
{
    let mut r = String::from_str("T");
    push_decimal(&mut r, local);
    r
}

pub fn scope_ident(scope: usize) -> (r: String)
    ensures
        r@ == scope_name(scope as nat),
{
    let mut r = String::from_str("scope");
    push_decimal(&mut r, scope);
    r
}

/// The character is a decimal digit.
pub open spec fn is_digit(c: char) -> bool {
    c == '0' || c == '1' || c == '2' || c == '3' || c == '4' || c == '5' || c == '6' || c == '7'
        || c == '8' || c == '9'
}

/// A number in decimal is made of digits, and of one at least.
pub proof fn lemma_decimal_digits(n: nat)
    ensures
        decimal(n).len() >= 1,
        n >= 10 ==> decimal(n).len() >= 2,
        forall|i: int| 0 <= i < decimal(n).len() ==> is_digit(#[trigger] decimal(n)[i]),
    decreases n,
{
    if n >= 10 {
        lemma_decimal_digits(n / 10);
    }
}

/// Two numbers that read alike in decimal are the same number.
pub proof fn lemma_decimal_is_injective(a: nat, b: nat)
    requires
        decimal(a) == decimal(b),
    ensures
        a == b,
    decreases a,
{
    lemma_decimal_digits(a);
    lemma_decimal_digits(b);
    if a < 10 {
        assert(decimal(a).len() == 1);
        assert(b < 10);
        assert(decimal(a)[0] == digit(a) && decimal(b)[0] == digit(b));
    } else {
        assert(b >= 10);
        let x = decimal(a / 10);
        let y = decimal(b / 10);
        assert(x.push(digit(a % 10)).drop_last() =~= x);
        assert(y.push(digit(b % 10)).drop_last() =~= y);
        assert(x.push(digit(a % 10)).last() == digit(a % 10));
        assert(y.push(digit(b % 10)).last() == digit(b % 10));
        lemma_decimal_is_injective(a / 10, b / 10);
        assert(a % 10 == b % 10);
    }
}

/// The role of a block does not start with a digit.
proof fn lemma_text_starts_with_letter(name: BlockName)
    ensures
        name.text().len() >= 1,
        !is_digit(name.text()[0]),
{
    reveal_strlit("Start");
    reveal_strlit("End");
    reveal_strlit("Then");
    reveal_strlit("Else");
    reveal_strlit("EndIf");
    reveal_strlit("Loop");
    reveal_strlit("LoopExit");
    reveal_strlit("Arm");
    reveal_strlit("EndMatch");
    reveal_strlit("AfterSuspend");
    reveal_strlit("AfterBreak");
    reveal_strlit("AfterContinue");
    reveal_strlit("AfterReturn");
}

/// The text behind the position of a block in the name of its state.
spec fn role_text(name: Option<BlockName>) -> Seq<char> {
    match name {
        Some(name) => name.text(),
        None => Seq::empty(),
    }
}

/// Digits that are followed by something that starts with no digit can be
/// read off again.
proof fn lemma_digits_are_read_off(d1: Seq<char>, t1: Seq<char>, d2: Seq<char>, t2: Seq<char>)
    requires
        d1 + t1 == d2 + t2,
        forall|i: int| 0 <= i < d1.len() ==> is_digit(#[trigger] d1[i]),
        forall|i: int| 0 <= i < d2.len() ==> is_digit(#[trigger] d2[i]),
        t1.len() > 0 ==> !is_digit(t1[0]),
        t2.len() > 0 ==> !is_digit(t2[0]),
    ensures
        d1 == d2,
{
    let whole = d1 + t1;
    if d1.len() < d2.len() {
        assert((d2 + t2)[d1.len() as int] == d2[d1.len() as int]);
        if t1.len() > 0 {
            assert(whole[d1.len() as int] == t1[0]);
        } else {
            assert(whole.len() == d1.len());
        }
    } else if d2.len() < d1.len() {
        assert(whole[d2.len() as int] == d1[d2.len() as int]);
        if t2.len() > 0 {
            assert((d2 + t2)[d2.len() as int] == t2[0]);
        } else {
            assert((d2 + t2).len() == d2.len());
        }
    } else {
        assert forall|i: int| 0 <= i < d1.len() implies d1[i] == d2[i] by {
            assert(whole[i] == d1[i]);
            assert((d2 + t2)[i] == d2[i]);
        }
        assert(d1 =~= d2);
    }
}

/// The states of two blocks have different names, whatever the roles of
/// the blocks: a name tells the block.
pub proof fn lemma_state_names_differ(
    first: nat,
    first_name: Option<BlockName>,
    second: nat,
    second_name: Option<BlockName>,
)
    requires
        first != second,
    ensures
        state_name(first, first_name) != state_name(second, second_name),
{
    if state_name(first, first_name) == state_name(second, second_name) {
        let head = "State"@;
        let d1 = decimal(first);
        let d2 = decimal(second);
        let t1 = role_text(first_name);
        let t2 = role_text(second_name);
        let a = head + d1 + t1;
        let b = head + d2 + t2;
        assert(a == state_name(first, first_name));
        assert(b == state_name(second, second_name));
        assert(a.subrange(head.len() as int, a.len() as int) =~= d1 + t1);
        assert(b.subrange(head.len() as int, b.len() as int) =~= d2 + t2);
        lemma_decimal_digits(first);
        lemma_decimal_digits(second);
        if first_name is Some {
            lemma_text_starts_with_letter(first_name->Some_0);
        }
        if second_name is Some {
            lemma_text_starts_with_letter(second_name->Some_0);
        }
        lemma_digits_are_read_off(d1, t1, d2, t2);
        lemma_decimal_is_injective(first, second);
    }
}

} // verus!
