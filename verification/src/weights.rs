//! Weights: what the work of a block costs.
use vstd::prelude::*;

verus! {

/// The cost of a unit of work.
pub type Weight = u64;

/// What one read and one write of the database cost.
#[derive(Clone, Copy, Debug, PartialEq, Eq)]
pub struct RuntimeDbWeight {
    pub read: Weight,
    pub write: Weight,
}

/// The product of two weights, or the largest weight if the product exceeds it.
pub open spec fn weight_times(a: Weight, b: Weight) -> Weight {
    if a * b <= Weight::MAX {
        (a * b) as Weight
    } else {
        Weight::MAX
    }
}

/// The sum of two weights, or the largest weight if the sum exceeds it.
pub open spec fn weight_plus(a: Weight, b: Weight) -> Weight {
    if a + b <= Weight::MAX {
        (a + b) as Weight
    } else {
        Weight::MAX
    }
}

impl RuntimeDbWeight {
    /// The cost of `r` reads.
    pub open spec fn spec_reads(self, r: Weight) -> Weight {
        weight_times(self.read, r)
    }

    /// The cost of `w` writes.
    pub open spec fn spec_writes(self, w: Weight) -> Weight {
        weight_times(self.write, w)
    }

    /// The cost of `r` reads and `w` writes.
    pub open spec fn spec_reads_writes(self, r: Weight, w: Weight) -> Weight {
        weight_plus(weight_times(self.read, r), weight_times(self.write, w))
    }

    /// The cost of `r` reads.
    pub fn reads(self, r: Weight) -> (weight: Weight)
        ensures
            weight == self.spec_reads(r),
    {
        saturating_times(self.read, r)
    }

    /// The cost of `w` writes.
    pub fn writes(self, w: Weight) -> (weight: Weight)
        ensures
            weight == self.spec_writes(w),
    {
        saturating_times(self.write, w)
    }

    /// The cost of `r` reads and `w` writes.
    pub fn reads_writes(self, r: Weight, w: Weight) -> (weight: Weight)
        ensures
            weight == self.spec_reads_writes(r, w),
    {
        saturating_times(self.read, r).saturating_add(saturating_times(self.write, w))
    }
}

/// The product of two weights, or the largest weight if the product exceeds it.
pub fn saturating_times(a: Weight, b: Weight) -> (r: Weight)
    ensures
        r == weight_times(a, b),
{
    if a == 0 || b == 0 {
        assert(a * b == 0) by (nonlinear_arith)
            requires
                a == 0 || b == 0,
        ;
        return 0;
    }
    if a > Weight::MAX / b {
        assert(a * b > Weight::MAX) by (nonlinear_arith)
            requires
                a > Weight::MAX / b,
                b > 0,
        ;
        Weight::MAX
    } else {
        assert(a * b <= Weight::MAX) by (nonlinear_arith)
            requires
                a <= Weight::MAX / b,
                b > 0,
        ;
        a * b
    }
}

/// The weights of the calls of the execution delivery.
pub trait WeightInfo {
    fn decompose_io_schedule(&self) -> Weight;

    fn register_gateway_default_polka(&self) -> Weight;

    fn register_gateway_polka_u64(&self) -> Weight;

    fn register_gateway_default_eth(&self) -> Weight;

    fn register_gateway_eth_u64(&self) -> Weight;

    fn dry_run_whole_xtx_one_component(&self) -> Weight;

    fn dry_run_whole_xtx_three_components(&self) -> Weight;
}

/// The weights measured on the reference hardware, over the database weights of
/// the host.
#[derive(Clone, Copy, Debug, PartialEq, Eq)]
pub struct SubstrateWeight {
    pub db_weight: RuntimeDbWeight,
}

/// A base weight with the cost of `r` reads and `w` writes added.
pub open spec fn weight_with_io(base: Weight, db: RuntimeDbWeight, r: Weight, w: Weight) -> Weight {
    weight_plus(weight_plus(base, db.spec_reads(r)), db.spec_writes(w))
}

impl SubstrateWeight {
    /// The weight of the registration of a gateway with the base weight `base`:
    /// four reads and seven writes on top of it.
    pub fn register_gateway(&self, base: Weight) -> (r: Weight)
        ensures
            r == weight_with_io(base, self.db_weight, 4, 7),
    {
        base.saturating_add(self.db_weight.reads(4)).saturating_add(self.db_weight.writes(7))
    }
}

impl WeightInfo for SubstrateWeight {
    fn decompose_io_schedule(&self) -> (r: Weight)
        ensures
            r == 6_984_000,
    {
        6_984_000
    }

    fn register_gateway_default_polka(&self) -> (r: Weight)
        ensures
            r == weight_with_io(68_373_000, self.db_weight, 4, 7),
    {
        self.register_gateway(68_373_000)
    }

    fn register_gateway_polka_u64(&self) -> (r: Weight)
        ensures
            r == weight_with_io(68_058_000, self.db_weight, 4, 7),
    {
        self.register_gateway(68_058_000)
    }

    fn register_gateway_default_eth(&self) -> (r: Weight)
        ensures
            r == weight_with_io(68_073_000, self.db_weight, 4, 7),
    {
        self.register_gateway(68_073_000)
    }

    fn register_gateway_eth_u64(&self) -> (r: Weight)
        ensures
            r == weight_with_io(67_939_000, self.db_weight, 4, 7),
    {
        self.register_gateway(67_939_000)
    }

    fn dry_run_whole_xtx_one_component(&self) -> (r: Weight)
        ensures
            r == weight_plus(14_094_000, self.db_weight.spec_reads(1)),
    {
        let base: Weight = 14_094_000;
        base.saturating_add(self.db_weight.reads(1))
    }

    fn dry_run_whole_xtx_three_components(&self) -> (r: Weight)
        ensures
            r == weight_plus(14_757_000, self.db_weight.spec_reads(1)),
    {
        let base: Weight = 14_757_000;
        base.saturating_add(self.db_weight.reads(1))
    }
}

} // verus!
