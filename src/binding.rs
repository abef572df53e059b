use vstd::prelude::*;

verus! {

/// What the match pattern of an arm does with one payload slot.
#[derive(Debug, Clone, Copy, PartialEq, Eq, Structural)]
pub enum SlotBinding {
    /// The slot at this position is bound to a name derived from the position.
    Bound(usize),
    /// The slot is matched by a wildcard and not read.
    Discarded,
}

/// The binding of the slot at position `i` of a case whose template holds `p`
/// placeholders: with no placeholder every slot is discarded; otherwise only the
/// slot whose position equals `p` is.
pub open spec fn binding_for(i: nat, p: nat) -> SlotBinding {
    if p == 0 || i == p {
        SlotBinding::Discarded
    } else {
        SlotBinding::Bound(i as usize)
    }
}

/// The bindings of the `n` slots of a case whose template holds `p` placeholders.
pub open spec fn bindings_for(n: nat, p: nat) -> Seq<SlotBinding> {
    Seq::new(n, |i: int| binding_for(i as nat, p))
}

/// The values of the bound slots, in slot order.
pub open spec fn bound_values(b: Seq<SlotBinding>, v: Seq<Seq<char>>) -> Seq<Seq<char>>
    decreases b.len(),
{
    if b.len() == 0 || v.len() == 0 {
        seq![]
    } else {
        let rest = bound_values(b.drop_last(), v.drop_last());
        if b.last() is Bound {
            rest.push(v.last())
        } else {
            rest
        }
    }
}

/// The decimal digit `d`.
pub open spec fn digit_char(d: nat) -> char {
    seq!['0', '1', '2', '3', '4', '5', '6', '7', '8', '9'][d as int]
}

/// The decimal notation of `n`, without leading zeros.
pub open spec fn decimal(n: nat) -> Seq<char>
    decreases n,
{
    if n < 10 {
        seq![digit_char(n)]
    } else {
        decimal(n / 10).push(digit_char(n % 10))
    }
}

/// The name that a bound slot at position `i` receives in the pattern: `f_<i>`.
pub open spec fn slot_name(i: nat) -> Seq<char> {
    seq!['f', '_'] + decimal(i)
}

fn digit_text(d: usize) -> (r: &'static str)
    requires
        d < 10,
    ensures
        r@ == seq![digit_char(d as nat)],
{
    let digits = "0123456789";
    proof {
        reveal_strlit("0123456789");
        assert(digits@ =~= seq!['0', '1', '2', '3', '4', '5', '6', '7', '8', '9']);
    }
    let r = digits.substring_char(d, d + 1);
    assert(r@ =~= seq![digit_char(d as nat)]);
    r
}

fn decimal_text(n: usize) -> (r: String)
    ensures
        r@ == decimal(n as nat),
    decreases n,
{
    if n < 10 {
        String::from_str(digit_text(n))
    } else {
        let mut r = decimal_text(n / 10);
        r.append(digit_text(n % 10));
        r
    }
}

/// The name bound to the slot at `position` in a generated pattern.
pub fn binding_name(position: usize) -> (r: String)
    ensures
        r@ == slot_name(position as nat),
{
    let mut r = String::from_str("f_");
    proof {
        reveal_strlit("f_");
    }
    r.append(decimal_text(position).as_str());
    assert(r@ =~= slot_name(position as nat));
    r
}

/// Decides, slot by slot, which payload slots of a case are bound and which are
/// discarded, given the number of slots and of placeholders in its template.
pub fn bind_slots(slot_count: usize, placeholders: usize) -> (r: Vec<SlotBinding>)
    ensures
        r@ == bindings_for(slot_count as nat, placeholders as nat),
{
    let mut r: Vec<SlotBinding> = Vec::new();
    let mut i: usize = 0;
    while i < slot_count
        invariant
            i <= slot_count,
            r@ == bindings_for(i as nat, placeholders as nat),
        decreases slot_count - i,
    {
        let b = if placeholders == 0 || i == placeholders {
            SlotBinding::Discarded
        } else {
            SlotBinding::Bound(i)
        };
        r.push(b);
        i = i + 1;
        assert(r@ =~= bindings_for(i as nat, placeholders as nat));
    }
    r
}

} // verus!
