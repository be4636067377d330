use vstd::prelude::*;

verus! {

/// ASCII decimal representation of `n`: most significant digit first,
/// each element a byte in `'0'..='9'`.
pub open spec fn decimal_rep(n: nat) -> Seq<u8>
    decreases n,
{
    if n < 10 {
        seq![(n + 48) as u8]
    } else {
        decimal_rep(n / 10).push(((n % 10) + 48) as u8)
    }
}

/// Renders `n` as its ASCII decimal digits.
pub fn decimal_digits(n: u64) -> (v: Vec<u8>)
    ensures
        v@ == decimal_rep(n as nat),
    decreases n,
{
    if n < 10 {
        let mut v: Vec<u8> = Vec::new();
        v.push((n as u8) + 48);
        v
    } else {
        let mut v: Vec<u8> = decimal_digits(n / 10);
        v.push(((n % 10) as u8) + 48);
        v
    }
}

/// The bytes of the label `"Hello, world: "` that opens every emitted line.
pub open spec fn greeting_prefix() -> Seq<u8> {
    seq![
        'H' as u8,
        'e' as u8,
        'l' as u8,
        'l' as u8,
        'o' as u8,
        ',' as u8,
        ' ' as u8,
        'w' as u8,
        'o' as u8,
        'r' as u8,
        'l' as u8,
        'd' as u8,
        ':' as u8,
        ' ' as u8,
    ]
}

/// The line emitted for the counter value `n`: the greeting label, the
/// decimal digits of `n`, and a closing `'!'`.
pub open spec fn line_for(n: nat) -> Seq<u8> {
    greeting_prefix() + decimal_rep(n) + seq!['!' as u8]
}

/// Builds the line for the counter value `n`.
pub fn render_line(n: u64) -> (v: Vec<u8>)
    ensures
        v@ == line_for(n as nat),
{
    let mut v: Vec<u8> = Vec::new();
    v.push('H' as u8);
    v.push('e' as u8);
    v.push('l' as u8);
    v.push('l' as u8);
    v.push('o' as u8);
    v.push(',' as u8);
    v.push(' ' as u8);
    v.push('w' as u8);
    v.push('o' as u8);
    v.push('r' as u8);
    v.push('l' as u8);
    v.push('d' as u8);
    v.push(':' as u8);
    v.push(' ' as u8);
    assert(v@ =~= greeting_prefix());
    let d: Vec<u8> = decimal_digits(n);
    assert(v@ =~= greeting_prefix() + d@.subrange(0, 0));
    let mut i: usize = 0;
    while i < d.len()
        invariant
            i <= d.len(),
            d@ == decimal_rep(n as nat),
            v@ == greeting_prefix() + d@.subrange(0, i as int),
        decreases d.len() - i,
    {
        v.push(d[i]);
        assert(d@.subrange(0, i as int + 1) =~= d@.subrange(0, i as int).push(d@[i as int]));
        assert(v@ =~= greeting_prefix() + d@.subrange(0, i as int + 1));
        i = i + 1;
    }
    assert(d@.subrange(0, d@.len() as int) =~= d@);
    v.push('!' as u8);
    assert(v@ =~= line_for(n as nat));
    v
}

/// The counter starts here.
pub open spec fn start_value() -> int {
    2
}

/// The loop runs while the counter is at or below this bound.
pub open spec fn bound_value() -> int {
    10
}

/// Everything the counter loop writes, one line per counter value in
/// `[start_value(), bound_value()]`, in ascending order.
pub open spec fn counter_output() -> Seq<Seq<u8>> {
    Seq::new((bound_value() + 1 - start_value()) as nat, |i: int| line_for((i + start_value()) as nat))
}

/// Runs the counter from `start_value()` up to and past `bound_value()`,
/// collecting one line per value, and returns the final counter value
/// together with the lines, which the caller may write out.
pub fn counter_loop() -> (r: (i32, Vec<Vec<u8>>))
    ensures
        r.0 == bound_value() + 1,
        r.1@.len() == counter_output().len(),
        forall|i: int| 0 <= i < r.1@.len() ==> r.1@[i]@ == counter_output()[i],
{
    let mut lines: Vec<Vec<u8>> = Vec::new();
    let mut a: i32 = 2;
    while a <= 10
        invariant
            2 <= a <= 11,
            lines@.len() == a - 2,
            forall|i: int| 0 <= i < lines@.len() ==> lines@[i]@ == line_for((i + 2) as nat),
        decreases 11 - a,
    {
        let line: Vec<u8> = render_line(a as u64);
        lines.push(line);
        a = a + 1;
    }
    (a, lines)
}

/// Law: the loop never emits a line for the value just past the bound, nor
/// for any value below the start: no entry of `counter_output()` is the
/// line for such a value.
pub proof fn lemma_no_line_outside_bounds(i: int, v: nat)
    requires
        0 <= i < counter_output().len(),
        v < start_value() || v == bound_value() + 1,
    ensures
        counter_output()[i] != line_for(v),
{
    reveal_with_fuel(decimal_rep, 3);
    let m = (i + 2) as nat;
    assert(counter_output()[i] == line_for(m));
    assert(greeting_prefix().len() == 14);
    if m < 10 {
        assert(decimal_rep(m) =~= seq![(m + 48) as u8]);
        if v == 11 {
            assert(decimal_rep(11) =~= seq![49u8, 49u8]);
            assert(line_for(m).len() == 16);
            assert(line_for(11).len() == 17);
        } else {
            assert(decimal_rep(v) =~= seq![(v + 48) as u8]);
            assert(line_for(m)[14] == (m + 48) as u8);
            assert(line_for(v)[14] == (v + 48) as u8);
            assert(line_for(m)[14] != line_for(v)[14]);
        }
    } else {
        assert(m == 10);
        assert(decimal_rep(10) =~= seq![49u8, 48u8]);
        if v == 11 {
            assert(decimal_rep(11) =~= seq![49u8, 49u8]);
            assert(line_for(10)[15] == 48u8);
            assert(line_for(11)[15] == 49u8);
        } else {
            assert(decimal_rep(v) =~= seq![(v + 48) as u8]);
            assert(line_for(10).len() == 17);
            assert(line_for(v).len() == 16);
        }
    }
}

/// Law: the output is one fixed sequence of lines; any two outputs that
/// meet the counter loop's contract are equal, so repeated runs produce
/// byte-identical output.
pub proof fn lemma_output_deterministic(a: Seq<Seq<u8>>, b: Seq<Seq<u8>>)
    requires
        a.len() == counter_output().len(),
        forall|i: int| 0 <= i < a.len() ==> a[i] == counter_output()[i],
        b.len() == counter_output().len(),
        forall|i: int| 0 <= i < b.len() ==> b[i] == counter_output()[i],
    ensures
        a == b,
{
    assert(a =~= b);
}

/// Returns the fixed constant of the optional stub; it performs no output
/// and is never called by the counter loop.
pub fn test() -> (r: u8)
    ensures
        r == 99,
{
    99
}

} // verus!
