//! The built-in configuration: seven presets from the laziest to the most
//! eager, each a curve on which neither temperature nor duty ever falls.

use crate::curve::{speeds_nondecreasing, temps_nondecreasing};
use crate::fan_config::{
    well_formed, FanConfig, FanConfigView, SpeedPoint, Strategy, StrategyTable, StrategyView, SCALE,
};
use vstd::prelude::*;
use vstd::string::*;

verus! {

/// The control point at `degrees` Celsius and `percent` of full duty.
pub open spec fn point_at(degrees: int, percent: int) -> SpeedPoint {
    SpeedPoint { temp: (degrees * SCALE) as i32, speed: (percent * SCALE) as i32 }
}

pub open spec fn laziest() -> StrategyView {
    StrategyView {
        interval: 3000,
        window: 40,
        curve: seq![
            point_at(0, 0),
            point_at(45, 0),
            point_at(65, 25),
            point_at(70, 35),
            point_at(75, 50),
            point_at(85, 100),
        ],
    }
}

pub open spec fn lazy() -> StrategyView {
    StrategyView {
        interval: 2000,
        window: 30,
        curve: seq![
            point_at(0, 15),
            point_at(50, 15),
            point_at(65, 25),
            point_at(70, 35),
            point_at(75, 50),
            point_at(85, 100),
        ],
    }
}

/// The curve shared by the presets `medium`, `agile` and `very-agile`.
pub open spec fn brisk_curve() -> Seq<SpeedPoint> {
    seq![
        point_at(0, 15),
        point_at(40, 15),
        point_at(60, 30),
        point_at(70, 40),
        point_at(75, 80),
        point_at(85, 100),
    ]
}

pub open spec fn medium() -> StrategyView {
    StrategyView { interval: 1000, window: 30, curve: brisk_curve() }
}

pub open spec fn agile() -> StrategyView {
    StrategyView { interval: 500, window: 15, curve: brisk_curve() }
}

pub open spec fn very_agile() -> StrategyView {
    StrategyView { interval: 500, window: 5, curve: brisk_curve() }
}

pub open spec fn deaf() -> StrategyView {
    StrategyView {
        interval: 500,
        window: 5,
        curve: seq![point_at(0, 20), point_at(40, 30), point_at(50, 50), point_at(60, 100)],
    }
}

pub open spec fn aeolus() -> StrategyView {
    StrategyView {
        interval: 500,
        window: 5,
        curve: seq![point_at(0, 20), point_at(40, 50), point_at(65, 100)],
    }
}

/// The built-in strategies by name.
pub open spec fn default_strategies() -> Map<Seq<char>, StrategyView> {
    Map::<Seq<char>, StrategyView>::empty().insert("laziest"@, laziest()).insert(
        "lazy"@,
        lazy(),
    ).insert("medium"@, medium()).insert("agile"@, agile()).insert(
        "very-agile"@,
        very_agile(),
    ).insert("deaf"@, deaf()).insert("aeolus"@, aeolus())
}

/// The built-in configuration: the seven presets, `lazy` as the default, and
/// no strategy for battery power.
pub open spec fn default_config() -> FanConfigView {
    FanConfigView {
        default_strategy: "lazy"@,
        strategy_on_discharging: ""@,
        strategies: default_strategies(),
    }
}

/// The names of the built-in strategies, in the order of the table.
pub open spec fn default_names() -> Seq<Seq<char>> {
    seq!["laziest"@, "lazy"@, "medium"@, "agile"@, "very-agile"@, "deaf"@, "aeolus"@]
}

/// Every built-in strategy is well formed, and on its curve neither
/// temperature nor duty ever falls.
pub proof fn lemma_presets_never_fall(name: Seq<char>)
    requires
        default_strategies().contains_key(name),
    ensures
        well_formed(default_strategies()[name]),
        temps_nondecreasing(default_strategies()[name].curve),
        speeds_nondecreasing(default_strategies()[name].curve),
{
}

/// The built-in names are seven different names, and they are the keys of
/// the built-in strategies.
pub proof fn lemma_default_names_distinct()
    ensures
        default_names().no_duplicates(),
        default_names().len() == 7,
        forall|name: Seq<char>|
            default_strategies().contains_key(name) <==> default_names().contains(name),
{
    reveal_strlit("laziest");
    reveal_strlit("lazy");
    reveal_strlit("medium");
    reveal_strlit("agile");
    reveal_strlit("very-agile");
    reveal_strlit("deaf");
    reveal_strlit("aeolus");
    let names = default_names();
    assert(names[0][0] == 'l' && names[0][3] == 'i' && names[0].len() == 7);
    assert(names[1][0] == 'l' && names[1][3] == 'y' && names[1].len() == 4);
    assert(names[2][0] == 'm');
    assert(names[3][0] == 'a' && names[3][1] == 'g');
    assert(names[4][0] == 'v');
    assert(names[5][0] == 'd');
    assert(names[6][0] == 'a' && names[6][1] == 'e');
    let presets = default_strategies();
    assert forall|name: Seq<char>| presets.contains_key(name) implies names.contains(name) by {
        if name == names[0] {
        } else if name == names[1] {
        } else if name == names[2] {
        } else if name == names[3] {
        } else if name == names[4] {
        } else if name == names[5] {
        } else {
            assert(name == names[6]);
        }
    }
    assert forall|name: Seq<char>| names.contains(name) implies presets.contains_key(name) by {
        let i = names.index_of(name);
        assert(names[i] == name);
    }
}

fn point(degrees: i32, percent: i32) -> (p: SpeedPoint)
    requires
        0 <= degrees <= 1000,
        0 <= percent <= 100,
    ensures
        p == point_at(degrees as int, percent as int),
{
    SpeedPoint { temp: degrees * SCALE, speed: percent * SCALE }
}

fn preset(interval: u32, window: u32, curve: Vec<SpeedPoint>) -> (strategy: Strategy)
    ensures
        strategy@ == (StrategyView {
            interval: interval as nat,
            window: window as nat,
            curve: curve@,
        }),
{
    Strategy {
        fan_speed_update_frequency: interval,
        moving_average_interval: window,
        speed_curve: curve,
    }
}

fn brisk_points() -> (curve: Vec<SpeedPoint>)
    ensures
        curve@ == brisk_curve(),
{
    let mut curve: Vec<SpeedPoint> = Vec::new();
    curve.push(point(0, 15));
    curve.push(point(40, 15));
    curve.push(point(60, 30));
    curve.push(point(70, 40));
    curve.push(point(75, 80));
    curve.push(point(85, 100));
    assert(curve@ =~= brisk_curve());
    curve
}

/// Builds the built-in configuration.
pub fn default_fan_config() -> (config: FanConfig)
    ensures
        config@ == default_config(),
        config.has_default(),
        config.strategies.names() == default_names(),
        config.strategies.names_distinct(),
{
    proof {
        lemma_default_names_distinct();
    }
    let ghost names = default_names();
    let mut strategies = StrategyTable::new();

    let mut curve: Vec<SpeedPoint> = Vec::new();
    curve.push(point(0, 0));
    curve.push(point(45, 0));
    curve.push(point(65, 25));
    curve.push(point(70, 35));
    curve.push(point(75, 50));
    curve.push(point(85, 100));
    assert(curve@ =~= laziest().curve);
    strategies.insert(String::from_str("laziest"), preset(3000, 40, curve));

    let mut curve: Vec<SpeedPoint> = Vec::new();
    curve.push(point(0, 15));
    curve.push(point(50, 15));
    curve.push(point(65, 25));
    curve.push(point(70, 35));
    curve.push(point(75, 50));
    curve.push(point(85, 100));
    assert(curve@ =~= lazy().curve);
    strategies.insert(String::from_str("lazy"), preset(2000, 30, curve));

    strategies.insert(String::from_str("medium"), preset(1000, 30, brisk_points()));
    strategies.insert(String::from_str("agile"), preset(500, 15, brisk_points()));
    strategies.insert(String::from_str("very-agile"), preset(500, 5, brisk_points()));

    let mut curve: Vec<SpeedPoint> = Vec::new();
    curve.push(point(0, 20));
    curve.push(point(40, 30));
    curve.push(point(50, 50));
    curve.push(point(60, 100));
    assert(curve@ =~= deaf().curve);
    strategies.insert(String::from_str("deaf"), preset(500, 5, curve));

    let mut curve: Vec<SpeedPoint> = Vec::new();
    curve.push(point(0, 20));
    curve.push(point(40, 50));
    curve.push(point(65, 100));
    assert(curve@ =~= aeolus().curve);
    strategies.insert(String::from_str("aeolus"), preset(500, 5, curve));

    proof {
        assert(strategies.names() =~= names);
    }
    FanConfig {
        default_strategy: String::from_str("lazy"),
        strategy_on_discharging: String::from_str(""),
        strategies,
    }
}

} // verus!
