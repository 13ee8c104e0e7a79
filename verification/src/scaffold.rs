//! What an area's directory holds when it is made, and what is emptied when
//! a part of it is reset.

use vstd::prelude::*;

verus! {

/// The directories that every area has.
pub open spec fn common_directories() -> Seq<Seq<char>> {
    seq!["notes"@, "flashcards"@]
}

/// The directories that `area` has beyond the common ones.
pub open spec fn own_directories(area: Seq<char>) -> Seq<Seq<char>> {
    if area == "math"@ {
        seq!["browser_firefox"@]
    } else if area == "learning"@ {
        seq!["browser_comet"@]
    } else if area == "work"@ {
        seq!["projects"@, "docs"@, "browser_profile"@]
    } else if area == "gaming"@ {
        seq!["games"@, "clips"@, "browser_profile"@]
    } else if area == "traveling"@ {
        seq!["plans"@]
    } else if area == "trading"@ {
        seq!["analysis"@]
    } else {
        Seq::empty()
    }
}

/// What the links file of `area` starts out with, where the area gets one:
/// the built-in areas `math` and `learning` get their resources, the other
/// built-in areas get no file, and every other area gets a heading.
pub open spec fn seed_links(area: Seq<char>) -> Option<Seq<char>> {
    if area == "math"@ {
        Some("Math resources:\nhttps://www.khanacademy.org\n"@)
    } else if area == "learning"@ {
        Some(
            "Primuss: https://www3.primuss.de/\nWikipedia: https://www.wikipedia.org\nChatGPT: https://chat.openai.com\n"@,
        )
    } else if area == "work"@ || area == "gaming"@ || area == "traveling"@ || area == "trading"@ {
        None
    } else {
        Some("# Links for "@ + area + "\n\n"@)
    }
}

/// What to make for a new area, below the area's directory.
#[derive(Debug, PartialEq, Eq)]
pub struct AreaPlan {
    /// The directories, in the order in which they are made.
    pub directories: Vec<String>,
    /// The content of the links file, where there is to be one.
    pub links: Option<String>,
}

/// A part of an area that can be reset.
#[derive(Clone, Copy, Debug, PartialEq, Eq, Structural)]
pub enum DestroyTarget {
    /// The browser profiles.
    Browser,
    /// The notes.
    Notes,
}

/// The directories that make up `target`.
pub open spec fn directories_of(target: DestroyTarget) -> Seq<Seq<char>> {
    match target {
        DestroyTarget::Browser => seq!["browser_firefox"@, "browser_comet"@, "browser_profile"@],
        DestroyTarget::Notes => seq!["notes"@],
    }
}

fn is(area: &str, name: &str) -> (same: bool)
    ensures
        same == (area@ == name@),
{
    area.to_owned() == name.to_owned()
}

/// What to make for `area`.
pub fn plan(area: &str) -> (plan: AreaPlan)
    ensures
        plan.directories.deep_view() == common_directories() + own_directories(area@),
        plan.links.deep_view() == seed_links(area@),
{
    let mut directories: Vec<String> = Vec::new();
    directories.push("notes".to_owned());
    directories.push("flashcards".to_owned());
    let mut links: Option<String> = None;
    if is(area, "math") {
        directories.push("browser_firefox".to_owned());
        links = Some("Math resources:\nhttps://www.khanacademy.org\n".to_owned());
    } else if is(area, "learning") {
        directories.push("browser_comet".to_owned());
        links = Some(
            "Primuss: https://www3.primuss.de/\nWikipedia: https://www.wikipedia.org\nChatGPT: https://chat.openai.com\n".to_owned(),
        );
    } else if is(area, "work") {
        directories.push("projects".to_owned());
        directories.push("docs".to_owned());
        directories.push("browser_profile".to_owned());
    } else if is(area, "gaming") {
        directories.push("games".to_owned());
        directories.push("clips".to_owned());
        directories.push("browser_profile".to_owned());
    } else if is(area, "traveling") {
        directories.push("plans".to_owned());
    } else if is(area, "trading") {
        directories.push("analysis".to_owned());
    } else {
        links = Some("# Links for ".to_owned().concat(area).concat("\n\n"));
    }
    assert(directories.deep_view() =~= common_directories() + own_directories(area@));
    AreaPlan { directories, links }
}

/// The directories to empty when `target` is reset, in the order in which
/// they are looked at.
pub fn reset_directories(target: DestroyTarget) -> (directories: Vec<String>)
    ensures
        directories.deep_view() == directories_of(target),
{
    let mut directories: Vec<String> = Vec::new();
    match target {
        DestroyTarget::Browser => {
            directories.push("browser_firefox".to_owned());
            directories.push("browser_comet".to_owned());
            directories.push("browser_profile".to_owned());
        },
        DestroyTarget::Notes => {
            directories.push("notes".to_owned());
        },
    }
    assert(directories.deep_view() =~= directories_of(target));
    directories
}

} // verus!
