use vstd::prelude::*;

verus! {

/// Multiplier applied to the xorshift state to scramble each output.
pub const SCRAMBLE_MULTIPLIER: u64 = 0x2545F4914F6CDD1D;

/// State used when the caller asks for seed zero (a zero state would be a
/// fixed point of the xorshift step).
pub const ZERO_SEED_STATE: u64 = 0x9E3779B97F4A7C15;

/// The state a generator starts in for a given seed.
pub open spec fn seed_state(seed: u64) -> u64 {
    if seed == 0 { ZERO_SEED_STATE } else { seed }
}

/// One xorshift64 step (shifts 12, 25, 27).
pub open spec fn xorshift_step(x: u64) -> u64 {
    let a = x ^ (x >> 12u64);
    let b = a ^ (a << 25u64);
    b ^ (b >> 27u64)
}

/// The 64-bit output drawn from a generator whose state is `x`: the next
/// state, multiplied by the scramble constant modulo 2^64.
pub open spec fn output_of(x: u64) -> u64 {
    ((xorshift_step(x) as nat * SCRAMBLE_MULTIPLIER as nat) % 0x1_0000_0000_0000_0000) as u64
}

/// The value `gen_range(upper)` returns from state `x`.
pub open spec fn range_of(x: u64, upper: usize) -> usize {
    if upper == 0 { 0 } else { ((output_of(x) as usize) % upper) as usize }
}

/// A deterministic xorshift64* pseudo-random number generator.
pub struct SimpleRng {
    state: u64,
}

impl View for SimpleRng {
    type V = u64;

    /// The generator's current state.
    closed spec fn view(&self) -> u64 {
        self.state
    }
}

impl SimpleRng {
    #[verifier::type_invariant]
    spec fn state_nonzero(self) -> bool {
        self.state != 0
    }

    /// Creates a generator; seed zero is replaced by a fixed nonzero state.
    pub fn seed(seed: u64) -> (r: Self)
        ensures
            r@ == seed_state(seed),
            r@ != 0,
    {
        let start = if seed == 0 { ZERO_SEED_STATE } else { seed };
        SimpleRng { state: start }
    }

    /// Advances the state by one xorshift step and returns the scrambled value.
    pub fn next_u64(&mut self) -> (r: u64)
        ensures
            final(self)@ == xorshift_step(old(self)@),
            r == output_of(old(self)@),
            final(self)@ != 0,
    {
        proof {
            use_type_invariant(&*self);
        }
        let mut x = self.state;
        x = x ^ (x >> 12u64);
        x = x ^ (x << 25u64);
        x = x ^ (x >> 27u64);
        proof {
            lemma_xorshift_nonzero(self.state);
        }
        self.state = x;
        x.wrapping_mul(SCRAMBLE_MULTIPLIER)
    }

    /// Draws the top 24 bits of the next output (the random part of a
    /// uniform draw from a float range).
    pub fn next_u24(&mut self) -> (r: u32)
        ensures
            r == output_of(old(self)@) >> 40u64,
            r < 0x100_0000,
            final(self)@ == xorshift_step(old(self)@),
            final(self)@ != 0,
    {
        let x = self.next_u64();
        assert(x >> 40u64 < 0x100_0000) by (bit_vector);
        (x >> 40u64) as u32
    }

    /// Draws a value in `0..upper` (or returns 0, consuming nothing, when
    /// `upper` is 0).
    pub fn gen_range(&mut self, upper: usize) -> (r: usize)
        ensures
            r == range_of(old(self)@, upper),
            upper > 0 ==> r < upper,
            upper == 0 ==> r == 0 && final(self)@ == old(self)@,
            upper > 0 ==> final(self)@ == xorshift_step(old(self)@),
            final(self)@ != 0,
    {
        proof {
            use_type_invariant(&*self);
        }
        if upper == 0 {
            return 0;
        }
        (self.next_u64() as usize) % upper
    }
}

/// A xorshift step maps a nonzero state to a nonzero state.
pub proof fn lemma_xorshift_nonzero(x: u64)
    requires
        x != 0,
    ensures
        xorshift_step(x) != 0,
{
    let a = x ^ (x >> 12u64);
    assert(x != 0 ==> x ^ (x >> 12u64) != 0) by (bit_vector);
    assert(a != 0 ==> a ^ (a << 25u64) != 0) by (bit_vector);
    let b = a ^ (a << 25u64);
    assert(b != 0 ==> b ^ (b >> 27u64) != 0) by (bit_vector);
}

/// The state after `n` draws of `gen_range(bound)` from state `x` (a draw
/// with bound 0 leaves the state alone).
pub open spec fn state_after_draws(x: u64, n: nat, bound: usize) -> u64
    decreases n,
{
    if n == 0 {
        x
    } else {
        let s = state_after_draws(x, (n - 1) as nat, bound);
        if bound == 0 {
            s
        } else {
            xorshift_step(s)
        }
    }
}

/// Where window `b` of a batch starts, for a generator starting at state
/// `x` and windows starting anywhere in `0..bound`.
pub open spec fn window_start(x: u64, b: nat, bound: usize) -> usize {
    range_of(state_after_draws(x, b, bound), bound)
}

/// Highest start drawn for windows of `seq_len` inputs over `data`.
pub open spec fn start_bound(data: Seq<u16>, seq_len: usize) -> usize {
    (data.len() - seq_len - 1) as usize
}

/// Entry `i` of a batch: token `i % seq_len` of window `i / seq_len`,
/// shifted by `shift` (0 for inputs, 1 for targets).
pub open spec fn batch_entry(data: Seq<u16>, x: u64, seq_len: usize, i: int, shift: int) -> u32 {
    data[window_start(x, (i / seq_len as int) as nat, start_bound(data, seq_len)) + i
        % seq_len as int + shift] as u32
}

/// Draws `batch_size` windows of `seq_len + 1` consecutive tokens of `data`:
/// the inputs are each window's first `seq_len` tokens and the targets its
/// last `seq_len`, both laid out window after window.
pub fn sample_batch(data: &[u16], batch_size: usize, seq_len: usize, rng: &mut SimpleRng) -> (r: (
    Vec<u32>,
    Vec<u32>,
))
    requires
        data@.len() >= seq_len + 1,
        batch_size * seq_len <= usize::MAX,
    ensures
        r.0@.len() == batch_size * seq_len,
        r.1@.len() == batch_size * seq_len,
        forall|i: int|
            0 <= i < batch_size * seq_len ==> r.0@[i] == batch_entry(data@, old(rng)@, seq_len, i, 0),
        forall|i: int|
            0 <= i < batch_size * seq_len ==> r.1@[i] == batch_entry(data@, old(rng)@, seq_len, i, 1),
        final(rng)@ == state_after_draws(
            old(rng)@,
            batch_size as nat,
            start_bound(data@, seq_len),
        ),
{
    let bound = data.len() - seq_len - 1;
    let ghost x0 = rng@;
    let mut xs: Vec<u32> = Vec::new();
    let mut ys: Vec<u32> = Vec::new();
    let mut b: usize = 0;
    while b < batch_size
        invariant
            b <= batch_size,
            batch_size * seq_len <= usize::MAX,
            data@.len() >= seq_len + 1,
            bound == start_bound(data@, seq_len),
            xs@.len() == b * seq_len,
            ys@.len() == b * seq_len,
            rng@ == state_after_draws(x0, b as nat, bound),
            forall|i: int|
                0 <= i < b * seq_len ==> #[trigger] xs@[i] == batch_entry(data@, x0, seq_len, i, 0)
                    && ys@[i] == batch_entry(data@, x0, seq_len, i, 1),
        decreases batch_size - b,
    {
        proof {
            assert(b * seq_len + seq_len <= batch_size * seq_len) by (nonlinear_arith)
                requires
                    b < batch_size,
            ;
        }
        let start = rng.gen_range(bound);
        assert(start == window_start(x0, b as nat, bound));
        let mut t: usize = 0;
        while t < seq_len
            invariant
                t <= seq_len,
                b < batch_size,
                b * seq_len + seq_len <= batch_size * seq_len <= usize::MAX,
                data@.len() >= seq_len + 1,
                data@.len() == data.len(),
                bound == start_bound(data@, seq_len),
                start == window_start(x0, b as nat, bound),
                bound == 0 ==> start == 0,
                bound > 0 ==> start < bound,
                xs@.len() == b * seq_len + t,
                ys@.len() == b * seq_len + t,
                forall|i: int|
                    0 <= i < b * seq_len + t ==> #[trigger] xs@[i] == batch_entry(
                        data@,
                        x0,
                        seq_len,
                        i,
                        0,
                    ) && ys@[i] == batch_entry(data@, x0, seq_len, i, 1),
            decreases seq_len - t,
        {
            proof {
                vstd::arithmetic::div_mod::lemma_fundamental_div_mod_converse(
                    b * seq_len + t,
                    seq_len as int,
                    b as int,
                    t as int,
                );
                vstd::arithmetic::mul::lemma_mul_is_commutative(b as int, seq_len as int);
            }
            xs.push(data[start + t] as u32);
            ys.push(data[start + t + 1] as u32);
            t = t + 1;
        }
        b = b + 1;
        proof {
            vstd::arithmetic::mul::lemma_mul_is_distributive_add(seq_len as int, (b - 1) as int, 1);
            vstd::arithmetic::mul::lemma_mul_is_commutative(b as int, seq_len as int);
            vstd::arithmetic::mul::lemma_mul_is_commutative((b - 1) as int, seq_len as int);
        }
    }
    assert(b == batch_size);
    assert(x0 == old(rng)@);
    assert forall|i: int| 0 <= i < batch_size * seq_len implies #[trigger] xs@[i] == batch_entry(
        data@,
        old(rng)@,
        seq_len,
        i,
        0,
    ) && ys@[i] == batch_entry(data@, old(rng)@, seq_len, i, 1) by {
        assert(i < b * seq_len);
    }
    assert forall|i: int| 0 <= i < batch_size * seq_len implies ys@[i] == batch_entry(
        data@,
        old(rng)@,
        seq_len,
        i,
        1,
    ) by {
        assert(xs@[i] == batch_entry(data@, x0, seq_len, i, 0));
    }
    (xs, ys)
}

/// Every window drawn for a batch lies inside the data: its last target is
/// at a position below the data's length.
pub proof fn law_windows_inside_data(data: Seq<u16>, x: u64, seq_len: usize, b: nat)
    requires
        data.len() >= seq_len + 1,
    ensures
        window_start(x, b, start_bound(data, seq_len)) + seq_len < data.len(),
{
}

/// Within a window, the target at a position is the input at the next
/// position: the targets are the inputs shifted by one token.
pub proof fn law_targets_shift_inputs(data: Seq<u16>, x: u64, seq_len: usize, i: int)
    requires
        0 <= i,
        seq_len > 0,
        i % (seq_len as int) + 1 < seq_len,
    ensures
        batch_entry(data, x, seq_len, i, 1) == batch_entry(data, x, seq_len, i + 1, 0),
{
    let q = i / seq_len as int;
    let r = i % seq_len as int;
    vstd::arithmetic::div_mod::lemma_fundamental_div_mod(i, seq_len as int);
    vstd::arithmetic::div_mod::lemma_fundamental_div_mod_converse(
        i + 1,
        seq_len as int,
        q,
        r + 1,
    );
}

} // verus!
