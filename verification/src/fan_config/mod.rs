//! Fan strategies and the configuration that names them.

use crate::curve::temps_nondecreasing;
use vstd::prelude::*;
use vstd::string::*;

pub mod default;

verus! {

/// Number of stored units in one degree Celsius and in one percent of duty.
pub const SCALE: i32 = 1000;

/// One control point of a speed curve.
///
/// `temp` is in thousandths of a degree Celsius and `speed` in thousandths of
/// a percent of full duty.
#[derive(Clone, Copy, Debug, PartialEq, Eq, Structural)]
pub struct SpeedPoint {
    pub temp: i32,
    pub speed: i32,
}

/// A named fan-control profile: how often to sample, how many raw duties to
/// smooth over, and the curve from temperature to duty.
#[derive(Debug)]
pub struct Strategy {
    /// Time between two samples, in milliseconds.
    pub fan_speed_update_frequency: u32,
    /// Capacity of the smoothing history.
    pub moving_average_interval: u32,
    /// Control points in the order in which they are scanned.
    pub speed_curve: Vec<SpeedPoint>,
}

/// The mathematical value of a `Strategy`.
pub ghost struct StrategyView {
    pub interval: nat,
    pub window: nat,
    pub curve: Seq<SpeedPoint>,
}

impl View for Strategy {
    type V = StrategyView;

    open spec fn view(&self) -> StrategyView {
        StrategyView {
            interval: self.fan_speed_update_frequency as nat,
            window: self.moving_average_interval as nat,
            curve: self.speed_curve@,
        }
    }
}

/// A strategy is well formed when it samples at a positive interval, smooths
/// over at least one raw duty, and the temperatures of its curve never fall.
pub open spec fn well_formed(strategy: StrategyView) -> bool {
    &&& strategy.interval > 0
    &&& strategy.window >= 1
    &&& temps_nondecreasing(strategy.curve)
}

impl Strategy {
    /// Tests whether the strategy is well formed.
    pub fn is_well_formed(&self) -> (r: bool)
        ensures
            r == well_formed(self@),
    {
        if self.fan_speed_update_frequency == 0 || self.moving_average_interval == 0 {
            return false;
        }
        let n = self.speed_curve.len();
        let mut i: usize = 1;
        while i < n
            invariant
                1 <= i,
                n == self.speed_curve@.len(),
                self.fan_speed_update_frequency != 0,
                self.moving_average_interval != 0,
                forall|a: int, b: int|
                    0 <= a <= b < i && b < n ==> self.speed_curve@[a].temp
                        <= self.speed_curve@[b].temp,
            decreases n - i,
        {
            if self.speed_curve[i - 1].temp > self.speed_curve[i].temp {
                proof {
                    assert(self@.curve[i - 1].temp > self@.curve[i as int].temp);
                }
                return false;
            }
            proof {
                let curve = self.speed_curve@;
                assert forall|a: int, b: int| 0 <= a <= b < i + 1 && b < n implies curve[a].temp
                    <= curve[b].temp by {
                    if b == i && a < i {
                        assert(curve[a].temp <= curve[i - 1].temp);
                    }
                }
            }
            i += 1;
        }
        true
    }
}

impl Clone for Strategy {
    fn clone(&self) -> (copy: Self)
        ensures
            copy@ == self@,
    {
        let mut curve: Vec<SpeedPoint> = Vec::new();
        let mut i: usize = 0;
        while i < self.speed_curve.len()
            invariant
                i <= self.speed_curve@.len(),
                curve@ == self.speed_curve@.take(i as int),
            decreases self.speed_curve@.len() - i,
        {
            curve.push(self.speed_curve[i]);
            proof {
                assert(self.speed_curve@.take(i + 1) =~= self.speed_curve@.take(i as int).push(
                    self.speed_curve@[i as int],
                ));
            }
            i += 1;
        }
        proof {
            assert(self.speed_curve@.take(self.speed_curve@.len() as int) =~= self.speed_curve@);
        }
        Strategy {
            fan_speed_update_frequency: self.fan_speed_update_frequency,
            moving_average_interval: self.moving_average_interval,
            speed_curve: curve,
        }
    }
}

/// The strategies of a configuration, found by name.
///
/// Entries keep the order in which their names were first inserted. The
/// table's value is the map from each name to its strategy.
#[derive(Debug)]
pub struct StrategyTable {
    entries: Vec<(String, Strategy)>,
}

/// `i` is the first index at which `names` holds `name`.
pub open spec fn first_at(names: Seq<Seq<char>>, name: Seq<char>, i: int) -> bool {
    &&& 0 <= i < names.len()
    &&& names[i] == name
    &&& forall|j: int| 0 <= j < i ==> names[j] != name
}

impl StrategyTable {
    /// The names of the entries, in order.
    pub closed spec fn names(&self) -> Seq<Seq<char>> {
        Seq::new(self.entries@.len(), |i: int| self.entries@[i].0@)
    }

    /// The strategies of the entries, in order.
    pub closed spec fn values(&self) -> Seq<StrategyView> {
        Seq::new(self.entries@.len(), |i: int| self.entries@[i].1@)
    }

    /// No name occurs in two entries.
    pub open spec fn names_distinct(&self) -> bool {
        self.names().no_duplicates()
    }

    /// The names and the map agree: the map's keys are the names, and each
    /// name maps to the strategy of the first entry that bears it.
    pub proof fn lemma_names_and_map(&self)
        ensures
            self.names().len() == self.values().len(),
            forall|k: Seq<char>| self@.contains_key(k) <==> self.names().contains(k),
            forall|i: int|
                0 <= i < self.names().len() ==> #[trigger] self@.contains_key(self.names()[i]),
            forall|k: Seq<char>, i: int| #[trigger]
                first_at(self.names(), k, i) ==> self@[k] == self.values()[i],
    {
        assert forall|i: int| 0 <= i < self.names().len() implies #[trigger] self@.contains_key(
            self.names()[i],
        ) by {
            assert(self.names().contains(self.names()[i]));
        }
        assert forall|k: Seq<char>, i: int| #[trigger]
            first_at(self.names(), k, i) implies self@[k] == self.values()[i] by {
            assert(self.names().contains(k));
            lemma_first_at_unique(self.names(), k, i);
        }
    }

    /// A table without entries.
    pub fn new() -> (table: Self)
        ensures
            table@ == Map::<Seq<char>, StrategyView>::empty(),
            table.names() == Seq::<Seq<char>>::empty(),
            table.names_distinct(),
    {
        let table = StrategyTable { entries: Vec::new() };
        proof {
            assert(table.names() =~= Seq::<Seq<char>>::empty());
            assert(table@ =~= Map::<Seq<char>, StrategyView>::empty());
        }
        table
    }

    /// Number of entries.
    pub fn len(&self) -> (n: usize)
        ensures
            n == self.names().len(),
    {
        self.entries.len()
    }

    /// The name of entry `i`.
    pub fn name_at(&self, i: usize) -> (name: &String)
        requires
            i < self.names().len(),
        ensures
            name@ == self.names()[i as int],
    {
        &self.entries[i].0
    }

    /// The strategy of entry `i`.
    pub fn strategy_at(&self, i: usize) -> (strategy: &Strategy)
        requires
            i < self.names().len(),
        ensures
            strategy@ == self.values()[i as int],
    {
        &self.entries[i].1
    }

    /// Index of the first entry that bears `name`.
    fn position(&self, name: &str) -> (at: Option<usize>)
        ensures
            match at {
                Some(i) => first_at(self.names(), name@, i as int),
                None => !self.names().contains(name@),
            },
    {
        let key = String::from_str(name);
        let mut i: usize = 0;
        while i < self.entries.len()
            invariant
                i <= self.entries@.len(),
                key@ == name@,
                forall|j: int| 0 <= j < i ==> self.names()[j] != name@,
            decreases self.entries@.len() - i,
        {
            if self.entries[i].0 == key {
                return Some(i);
            }
            i += 1;
        }
        None
    }

    /// Whether a strategy bears `name`.
    pub fn contains_key(&self, name: &str) -> (found: bool)
        ensures
            found == self@.contains_key(name@),
    {
        self.position(name).is_some()
    }

    /// The strategy that bears `name`.
    pub fn get(&self, name: &str) -> (found: Option<&Strategy>)
        ensures
            match found {
                Some(strategy) => self@.contains_key(name@) && strategy@ == self@[name@],
                None => !self@.contains_key(name@),
            },
    {
        match self.position(name) {
            Some(i) => {
                proof {
                    lemma_first_at_unique(self.names(), name@, i as int);
                }
                Some(&self.entries[i].1)
            },
            None => None,
        }
    }

    /// Binds `name` to `strategy`, replacing the strategy that bore the name
    /// before, if any. Returns whether there was one.
    pub fn insert(&mut self, name: String, strategy: Strategy) -> (replaced: bool)
        ensures
            final(self)@ == old(self)@.insert(name@, strategy@),
            replaced == old(self)@.contains_key(name@),
            old(self).names_distinct() ==> final(self).names_distinct(),
            replaced ==> final(self).names() == old(self).names(),
            !replaced ==> final(self).names() == old(self).names().push(name@),
    {
        let ghost before = *self;
        match self.position(name.as_str()) {
            Some(i) => {
                self.entries.set(i, (name, strategy));
                proof {
                    assert(self.names() =~= before.names());
                    let wanted = before@.insert(name@, strategy@);
                    assert forall|k: Seq<char>| self@.contains_key(k) implies #[trigger] self@[k]
                        == wanted[k] by {
                        let j = first_index(self.names(), k);
                        lemma_first_index(self.names(), k);
                        lemma_first_at_unique(before.names(), k, j);
                        if k == name@ {
                            lemma_first_at_unique(self.names(), k, i as int);
                        }
                    }
                    assert(self@ =~= before@.insert(name@, strategy@));
                }
                true
            },
            None => {
                self.entries.push((name, strategy));
                proof {
                    let n = before.names().len() as int;
                    assert(self.names() =~= before.names().push(name@));
                    let wanted = before@.insert(name@, strategy@);
                    assert forall|k: Seq<char>| self@.contains_key(k) implies wanted.contains_key(k)
                        && #[trigger] self@[k] == wanted[k] by {
                        if k == name@ {
                            assert(first_at(self.names(), k, n));
                            lemma_first_at_unique(self.names(), k, n);
                        } else {
                            let m = self.names().index_of(k);
                            assert(before.names()[m] == k);
                            let j = first_index(before.names(), k);
                            lemma_first_index(before.names(), k);
                            assert(first_at(self.names(), k, j));
                            lemma_first_at_unique(self.names(), k, j);
                        }
                    }
                    assert forall|k: Seq<char>| wanted.contains_key(k) implies self@.contains_key(
                        k,
                    ) by {
                        if k == name@ {
                            assert(self.names()[n] == k);
                        } else {
                            let m = before.names().index_of(k);
                            assert(self.names()[m] == k);
                        }
                    }
                    assert(self@ =~= before@.insert(name@, strategy@));
                    if before.names_distinct() {
                        assert forall|a: int, b: int|
                            0 <= a < self.names().len() && 0 <= b < self.names().len() && a
                                != b implies self.names()[a] != self.names()[b] by {
                            if a < n && b < n {
                                assert(before.names()[a] != before.names()[b]);
                            } else if a < n {
                                assert(before.names().contains(before.names()[a]));
                            } else {
                                assert(before.names().contains(before.names()[b]));
                            }
                        }
                    }
                }
                false
            },
        }
    }
}

impl View for StrategyTable {
    type V = Map<Seq<char>, StrategyView>;

    closed spec fn view(&self) -> Map<Seq<char>, StrategyView> {
        Map::new(
            |k: Seq<char>| self.names().contains(k),
            |k: Seq<char>| self.values()[first_index(self.names(), k)],
        )
    }
}

/// The first index at which `names` holds `name`, where it holds it at all.
pub closed spec fn first_index(names: Seq<Seq<char>>, name: Seq<char>) -> int {
    choose|i: int| first_at(names, name, i)
}

proof fn lemma_first_index(names: Seq<Seq<char>>, name: Seq<char>)
    requires
        names.contains(name),
    ensures
        first_at(names, name, first_index(names, name)),
    decreases names.len(),
{
    if names[0] == name {
        assert(first_at(names, name, 0));
    } else {
        let rest = names.drop_first();
        let i = names.index_of(name);
        assert(rest[i - 1] == name);
        lemma_first_index(rest, name);
        let j = first_index(rest, name);
        assert forall|m: int| 0 <= m < j + 1 implies names[m] != name by {
            if m > 0 {
                assert(rest[m - 1] != name);
            }
        }
        assert(first_at(names, name, j + 1));
    }
}

proof fn lemma_first_at_unique(names: Seq<Seq<char>>, name: Seq<char>, i: int)
    requires
        first_at(names, name, i),
    ensures
        first_index(names, name) == i,
{
    assert(names.contains(name));
    lemma_first_index(names, name);
}

/// The daemon's configuration: its strategies and which of them to start
/// with.
#[derive(Debug)]
pub struct FanConfig {
    /// Name of the strategy that is active after start and after a reset.
    pub default_strategy: String,
    /// Name of the strategy for battery power; empty when unused.
    pub strategy_on_discharging: String,
    pub strategies: StrategyTable,
}

/// The mathematical value of a `FanConfig`.
pub ghost struct FanConfigView {
    pub default_strategy: Seq<char>,
    pub strategy_on_discharging: Seq<char>,
    pub strategies: Map<Seq<char>, StrategyView>,
}

impl View for FanConfig {
    type V = FanConfigView;

    open spec fn view(&self) -> FanConfigView {
        FanConfigView {
            default_strategy: self.default_strategy@,
            strategy_on_discharging: self.strategy_on_discharging@,
            strategies: self.strategies@,
        }
    }
}

impl FanConfig {
    /// The configuration names a default strategy that it holds.
    pub open spec fn has_default(&self) -> bool {
        self@.strategies.contains_key(self@.default_strategy)
    }

    /// The default strategy, where the configuration holds one of that name.
    pub fn default_profile(&self) -> (found: Option<&Strategy>)
        ensures
            match found {
                Some(strategy) => self.has_default() && strategy@
                    == self@.strategies[self@.default_strategy],
                None => !self.has_default(),
            },
    {
        self.strategies.get(self.default_strategy.as_str())
    }
}

/// A configuration ready for use, and whether it has yet to be stored.
#[derive(Debug)]
pub struct Loaded {
    pub config: FanConfig,
    /// The configuration is the built-in one and must be written to the
    /// store before first use.
    pub created: bool,
}

/// Decides which configuration to use: the stored one where there is one,
/// else the built-in one, which then has to be stored.
pub fn load_or_create_config(stored: Option<FanConfig>) -> (loaded: Loaded)
    ensures
        match stored {
            Some(config) => loaded.config@ == config@ && !loaded.created,
            None => loaded.config@ == default::default_config() && loaded.created
                && loaded.config.has_default(),
        },
{
    match stored {
        Some(config) => Loaded { config, created: false },
        None => Loaded { config: default::default_fan_config(), created: true },
    }
}

} // verus!
