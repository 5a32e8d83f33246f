use vstd::prelude::*;

use crate::disease::Disease;
use crate::geography::MAX_GRID_SIZE;

verus! {

/// The fields of the configuration document that the engine reads: grid and
/// population sizes, the disease parameters, the vaccination schedule and the
/// run length in hours. Percentages are out of 100.
#[derive(Copy, Clone, PartialEq, Eq, Structural, Debug)]
pub struct Config {
    pub grid_size: i32,
    pub number_of_agents: i32,
    pub simulation_life_time: i32,
    pub vaccination_time: i32,
    pub vaccination_percentage: u32,
    pub disease: Disease,
}

/// A configuration the engine agrees to run: a grid with room for all three
/// areas (seven columns is the smallest that fits them), a population that
/// fits the housing strip, a bounded run length and true percentages.
pub open spec fn spec_valid_config(c: Config) -> bool {
    &&& 7 <= c.grid_size <= MAX_GRID_SIZE
    &&& 0 <= c.number_of_agents <= (c.grid_size / 2) * c.grid_size
    &&& 0 <= c.simulation_life_time < i32::MAX
    &&& c.vaccination_percentage <= 100
    &&& c.disease.contact_probability <= 100
    &&& c.disease.recovery_probability <= 100
    &&& c.disease.death_probability <= 100
}

impl Config {
    /// Decides whether this configuration can be run; a request carrying a
    /// configuration this rejects is dropped.
    pub fn is_valid(&self) -> (r: bool)
        ensures
            r == spec_valid_config(*self),
    {
        if !(7 <= self.grid_size && self.grid_size <= MAX_GRID_SIZE) {
            return false;
        }
        proof {
            vstd::arithmetic::div_mod::lemma_fundamental_div_mod(self.grid_size as int, 2);
            assert((self.grid_size / 2) * self.grid_size <= 23170 * 46340) by (nonlinear_arith)
                requires
                    0 <= self.grid_size / 2 <= 23170,
                    0 < self.grid_size <= 46340,
            ;
        }
        let housing_capacity = (self.grid_size / 2) * self.grid_size;
        0 <= self.number_of_agents && self.number_of_agents <= housing_capacity && 0
            <= self.simulation_life_time && self.simulation_life_time < i32::MAX
            && self.vaccination_percentage <= 100 && self.disease.contact_probability <= 100
            && self.disease.recovery_probability <= 100 && self.disease.death_probability <= 100
    }
}

} // verus!
