//! The configured areas and the browser command.

use crate::error::Error;
use vstd::prelude::*;

verus! {

/// The texts of a list of strings.
pub open spec fn names_of(list: Seq<String>) -> Seq<Seq<char>> {
    list.map_values(|name: String| name@)
}

/// The test that every name but `name` passes.
pub open spec fn other_than(name: Seq<char>) -> spec_fn(Seq<char>) -> bool {
    |area: Seq<char>| area != name
}

/// `areas` with every occurrence of `name` taken out.
pub open spec fn without(areas: Seq<Seq<char>>, name: Seq<char>) -> Seq<Seq<char>> {
    areas.filter(other_than(name))
}

/// The areas of a configuration that was never persisted, in display order.
pub open spec fn default_areas() -> Seq<Seq<char>> {
    seq!["work"@, "math"@, "learning"@, "gaming"@, "traveling"@, "trading"@]
}

/// The browser command of a configuration that was never persisted.
pub open spec fn default_browser_command() -> Seq<char> {
    "firefox -P {area}"@
}

/// A configuration as the contracts see it.
pub struct ConfigView {
    pub areas: Seq<Seq<char>>,
    pub browser_command: Seq<char>,
}

impl ConfigView {
    /// No area is listed twice.
    pub open spec fn wf(self) -> bool {
        self.areas.no_duplicates()
    }

    /// The configuration without persisted state behind it.
    pub open spec fn initial() -> ConfigView {
        ConfigView { areas: default_areas(), browser_command: default_browser_command() }
    }
}

/// Taking a name out of a list without repetitions leaves no repetitions.
pub proof fn lemma_without_keeps_distinct(areas: Seq<Seq<char>>, name: Seq<char>)
    requires
        areas.no_duplicates(),
    ensures
        without(areas, name).no_duplicates(),
        !without(areas, name).contains(name),
        forall|other: Seq<char>|
            other != name ==> (#[trigger] without(areas, name).contains(other) <==> areas.contains(
                other,
            )),
    decreases areas.len(),
{
    let keep = other_than(name);
    let kept = areas.filter(keep);
    if areas.len() > 0 {
        let front = areas.drop_last();
        let last = areas.last();
        lemma_without_keeps_distinct(front, name);
        assert(areas == front.push(last));
        Seq::lemma_filter_push(front, last, keep);
        if keep(last) {
            if front.filter(keep).contains(last) {
                front.lemma_filter_contains_rev(keep, last);
                let i = choose|i: int| 0 <= i < front.len() && front[i] == last;
                assert(areas[i] == areas[areas.len() - 1]);
            }
            let shorter = front.filter(keep);
            assert forall|a: int, b: int|
                0 <= a < kept.len() && 0 <= b < kept.len() && a != b implies kept[a]
                != kept[b] by {
                if a < shorter.len() && b < shorter.len() {
                } else if a < shorter.len() {
                    assert(shorter.contains(shorter[a]));
                } else {
                    assert(shorter.contains(shorter[b]));
                }
            }
        }
    } else {
        reveal(Seq::filter);
    }
    if kept.contains(name) {
        let j = choose|j: int| 0 <= j < kept.len() && kept[j] == name;
        areas.lemma_filter_pred(keep, j);
    }
    assert forall|other: Seq<char>| other != name implies (#[trigger] kept.contains(other)
        <==> areas.contains(other)) by {
        if kept.contains(other) {
            areas.lemma_filter_contains_rev(keep, other);
        }
        if areas.contains(other) {
            let i = choose|i: int| 0 <= i < areas.len() && areas[i] == other;
            areas.lemma_filter_contains(keep, i);
        }
    }
}

/// The known areas, each listed once in display order, and the command that
/// launches a browser for an area.
#[derive(Debug, PartialEq, Eq)]
pub struct Config {
    areas: Vec<String>,
    browser_command: String,
}

impl View for Config {
    type V = ConfigView;

    closed spec fn view(&self) -> ConfigView {
        ConfigView { areas: names_of(self.areas@), browser_command: self.browser_command@ }
    }
}

/// Whether `name` is one of `areas`.
pub fn lists(areas: &Vec<String>, name: &str) -> (found: bool)
    ensures
        found == names_of(areas@).contains(name@),
{
    let wanted = name.to_owned();
    let mut i: usize = 0;
    while i < areas.len()
        invariant
            i <= areas.len(),
            wanted@ == name@,
            forall|j: int| 0 <= j < i ==> names_of(areas@)[j] != name@,
        decreases areas.len() - i,
    {
        if areas[i] == wanted {
            assert(names_of(areas@)[i as int] == name@);
            return true;
        }
        i += 1;
    }
    false
}

/// Whether `areas` lists a name twice.
pub fn repeats(areas: &Vec<String>) -> (found: bool)
    ensures
        found == !names_of(areas@).no_duplicates(),
{
    let mut i: usize = 0;
    while i < areas.len()
        invariant
            i <= areas.len(),
            forall|a: int, b: int|
                0 <= a < b < i ==> names_of(areas@)[a] != names_of(areas@)[b],
        decreases areas.len() - i,
    {
        let mut j: usize = 0;
        while j < i
            invariant
                j <= i < areas.len(),
                forall|a: int| 0 <= a < j ==> names_of(areas@)[a] != names_of(areas@)[i as int],
            decreases i - j,
        {
            if areas[j] == areas[i] {
                assert(names_of(areas@)[j as int] == names_of(areas@)[i as int]);
                return true;
            }
            j += 1;
        }
        i += 1;
    }
    assert forall|a: int, b: int|
        0 <= a < names_of(areas@).len() && 0 <= b < names_of(areas@).len() && a != b implies names_of(
        areas@,
    )[a] != names_of(areas@)[b] by {
        if a < b {
        } else {
            assert(names_of(areas@)[b] != names_of(areas@)[a]);
        }
    }
    false
}

impl Config {
    /// What holds of every configuration: no area is listed twice.
    #[verifier::type_invariant]
    pub closed spec fn inv(self) -> bool {
        names_of(self.areas@).no_duplicates()
    }

    /// No configuration lists an area twice.
    pub proof fn lemma_wf(self)
        requires
            self.inv(),
        ensures
            self@.wf(),
    {
    }

    /// A configuration of `areas` and `browser_command`. A list that names an
    /// area twice is refused.
    pub fn new(areas: Vec<String>, browser_command: String) -> (result: Result<Config, Error>)
        ensures
            match result {
                Ok(config) => {
                    &&& names_of(areas@).no_duplicates()
                    &&& config@ == (ConfigView {
                        areas: names_of(areas@),
                        browser_command: browser_command@,
                    })
                },
                Err(error) => error == Error::ConfigCorrupt && !names_of(areas@).no_duplicates(),
            },
    {
        if repeats(&areas) {
            Err(Error::ConfigCorrupt)
        } else {
            Ok(Config { areas, browser_command })
        }
    }

    /// The configuration to work with: the persisted one where there is one,
    /// else the built-in default.
    pub fn load(persisted: Option<(Vec<String>, String)>) -> (result: Result<Config, Error>)
        ensures
            match persisted {
                None => result is Ok && result->Ok_0@ == ConfigView::initial(),
                Some((areas, browser_command)) => match result {
                    Ok(config) => {
                        &&& names_of(areas@).no_duplicates()
                        &&& config@ == (ConfigView {
                            areas: names_of(areas@),
                            browser_command: browser_command@,
                        })
                    },
                    Err(error) => error == Error::ConfigCorrupt && !names_of(
                        areas@,
                    ).no_duplicates(),
                },
            },
    {
        match persisted {
            None => Ok(Config::default()),
            Some((areas, browser_command)) => Config::new(areas, browser_command),
        }
    }

    /// The areas in display order.
    pub fn areas(&self) -> (areas: &Vec<String>)
        ensures
            names_of(areas@) == self@.areas,
            self@.wf(),
    {
        proof {
            use_type_invariant(self);
        }
        &self.areas
    }

    /// The command that launches a browser, with `{area}` for the area's name.
    pub fn browser_command(&self) -> (command: &str)
        ensures
            command@ == self@.browser_command,
    {
        self.browser_command.as_str()
    }

    /// Whether `name` is a configured area.
    pub fn contains(&self, name: &str) -> (found: bool)
        ensures
            found == self@.areas.contains(name@),
    {
        lists(&self.areas, name)
    }

    /// The first area in display order.
    pub fn first(&self) -> (first: Option<&String>)
        ensures
            match first {
                Some(name) => self@.areas.len() > 0 && name@ == self@.areas[0],
                None => self@.areas.len() == 0,
            },
    {
        if self.areas.len() > 0 {
            Some(&self.areas[0])
        } else {
            None
        }
    }

    /// Lists `name` after the configured areas, unless it is one of them.
    pub fn add_area(&mut self, name: &str) -> (result: Result<(), Error>)
        ensures
            final(self)@.wf(),
            match result {
                Ok(()) => {
                    &&& !old(self)@.areas.contains(name@)
                    &&& final(self)@ == (ConfigView {
                        areas: old(self)@.areas.push(name@),
                        ..old(self)@
                    })
                },
                Err(error) => {
                    &&& error == Error::AreaAlreadyExists
                    &&& old(self)@.areas.contains(name@)
                    &&& final(self)@ == old(self)@
                },
            },
    {
        proof {
            use_type_invariant(&*self);
        }
        if lists(&self.areas, name) {
            Err(Error::AreaAlreadyExists)
        } else {
            let ghost before = names_of(self.areas@);
            let mut grown: Vec<String> = Vec::new();
            core::mem::swap(&mut self.areas, &mut grown);
            grown.push(name.to_owned());
            proof {
                assert(names_of(grown@) =~= before.push(name@));
                assert(before.push(name@).no_duplicates()) by {
                    assert forall|a: int, b: int|
                        0 <= a < before.len() + 1 && 0 <= b < before.len() + 1 && a != b implies before.push(
                        name@,
                    )[a] != before.push(name@)[b] by {
                        if a < before.len() && b < before.len() {
                        } else if a < before.len() {
                            assert(before.contains(before[a]));
                        } else {
                            assert(before.contains(before[b]));
                        }
                    }
                }
            }
            core::mem::swap(&mut self.areas, &mut grown);
            Ok(())
        }
    }

    /// Takes `name` out of the configured areas, if it is one of them.
    pub fn remove_area(&mut self, name: &str) -> (result: Result<(), Error>)
        ensures
            final(self)@.wf(),
            match result {
                Ok(()) => {
                    &&& old(self)@.areas.contains(name@)
                    &&& final(self)@ == (ConfigView {
                        areas: without(old(self)@.areas, name@),
                        ..old(self)@
                    })
                },
                Err(error) => {
                    &&& error == Error::AreaNotFound
                    &&& !old(self)@.areas.contains(name@)
                    &&& final(self)@ == old(self)@
                },
            },
    {
        proof {
            use_type_invariant(&*self);
        }
        if !lists(&self.areas, name) {
            return Err(Error::AreaNotFound);
        }
        let wanted = name.to_owned();
        let ghost before = names_of(self.areas@);
        let ghost keep = other_than(name@);
        let mut kept: Vec<String> = Vec::new();
        let mut i: usize = 0;
        while i < self.areas.len()
            invariant
                i <= self.areas.len(),
                wanted@ == name@,
                before == names_of(self.areas@),
                keep == other_than(name@),
                names_of(kept@) == before.take(i as int).filter(keep),
            decreases self.areas.len() - i,
        {
            proof {
                Seq::lemma_filter_push(before.take(i as int), before[i as int], keep);
                assert(before.take(i + 1) == before.take(i as int).push(before[i as int]));
            }
            if self.areas[i] != wanted {
                let ghost shorter = names_of(kept@);
                kept.push(self.areas[i].clone());
                assert(names_of(kept@) =~= shorter.push(before[i as int]));
            }
            i += 1;
        }
        proof {
            assert(before.take(i as int) == before);
            lemma_without_keeps_distinct(before, name@);
        }
        self.areas = kept;
        Ok(())
    }
}

impl Default for Config {
    fn default() -> (config: Config)
        ensures
            config@ == ConfigView::initial(),
    {
        let mut areas: Vec<String> = Vec::new();
        areas.push("work".to_owned());
        areas.push("math".to_owned());
        areas.push("learning".to_owned());
        areas.push("gaming".to_owned());
        areas.push("traveling".to_owned());
        areas.push("trading".to_owned());
        proof {
            assert(names_of(areas@) =~= default_areas());
            lemma_default_areas_distinct();
        }
        Config { areas, browser_command: "firefox -P {area}".to_owned() }
    }
}

/// The built-in areas are six different names.
pub proof fn lemma_default_areas_distinct()
    ensures
        default_areas().no_duplicates(),
        default_areas().len() == 6,
        default_areas()[0] == "work"@,
{
    reveal_strlit("work");
    reveal_strlit("math");
    reveal_strlit("learning");
    reveal_strlit("gaming");
    reveal_strlit("traveling");
    reveal_strlit("trading");
    let list = default_areas();
    assert(list[0][0] == 'w');
    assert(list[1][0] == 'm');
    assert(list[2][0] == 'l');
    assert(list[3][0] == 'g');
    assert(list[4][3] == 'v');
    assert(list[5][3] == 'd');
    assert(list[4][0] == 't');
    assert(list[5][0] == 't');
}

} // verus!
