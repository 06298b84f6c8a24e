//! The user's preferences that the screens read.
use vstd::prelude::*;

use crate::list::SelectionStyle;
use crate::model::Moment;
use crate::strs::same;

verus! {

/// How crisp inline images are drawn.
#[derive(Debug, Clone, Copy, PartialEq, Eq, Structural)]
pub enum ImageSharpness {
    Crisp,
    Smooth,
    Medium,
    Sharp,
}

impl ImageSharpness {
    pub open spec fn named(name: Seq<char>) -> Option<ImageSharpness> {
        if name == "crisp"@ {
            Some(ImageSharpness::Crisp)
        } else if name == "smooth"@ {
            Some(ImageSharpness::Smooth)
        } else if name == "medium"@ {
            Some(ImageSharpness::Medium)
        } else if name == "sharp"@ {
            Some(ImageSharpness::Sharp)
        } else {
            None
        }
    }

    /// The sharpness with that name, if there is one.
    pub fn parse(name: &str) -> (r: Option<ImageSharpness>)
        ensures
            r == ImageSharpness::named(name@),
    {
        if same(name, "crisp") {
            Some(ImageSharpness::Crisp)
        } else if same(name, "smooth") {
            Some(ImageSharpness::Smooth)
        } else if same(name, "medium") {
            Some(ImageSharpness::Medium)
        } else if same(name, "sharp") {
            Some(ImageSharpness::Sharp)
        } else {
            None
        }
    }
}

/// The preferences.
#[derive(Debug, Clone, Copy, PartialEq, Eq, Structural)]
pub struct Config {
    /// Ask before deleting.
    pub confirm_deletes: bool,
    /// Make URLs clickable.
    pub hyperlinks: bool,
    pub selection: SelectionStyle,
    /// The rows an inline image takes.
    pub image_height: u16,
    /// How crisp inline images are drawn.
    pub image_sharpness: ImageSharpness,
    /// Leave no blank line between list items.
    pub compact: bool,
    /// The columns a preview takes.
    pub preview_length: usize,
    /// Show posts that are not safe for work.
    pub nsfw: bool,
}

impl Config {
    pub open spec fn standard() -> Config {
        Config {
            confirm_deletes: true,
            hyperlinks: true,
            selection: SelectionStyle::Fill,
            image_height: 12,
            image_sharpness: ImageSharpness::Crisp,
            compact: false,
            preview_length: 160,
            nsfw: false,
        }
    }
}

impl Default for Config {
    fn default() -> (r: Config)
        ensures
            r == Config::standard(),
    {
        Config {
            confirm_deletes: true,
            hyperlinks: true,
            selection: SelectionStyle::Fill,
            image_height: 12,
            image_sharpness: ImageSharpness::Crisp,
            compact: false,
            preview_length: 160,
            nsfw: false,
        }
    }
}

/// The text of item `i`'s time: what the caller formatted it as, and nothing
/// for an item without one.
pub open spec fn stamp(time: Option<Moment>, stamps: Seq<String>, i: int) -> Seq<char> {
    if time is Some && 0 <= i < stamps.len() {
        stamps[i]@
    } else {
        Seq::empty()
    }
}

/// The text of item `i`'s time.
pub fn stamp_of(time: Option<Moment>, stamps: &Vec<String>, i: usize) -> (r: String)
    ensures
        r@ == stamp(time, stamps@, i as int),
{
    if time.is_some() && i < stamps.len() {
        stamps[i].clone()
    } else {
        String::new()
    }
}

/// Each sharpness has a name of its own, and no other name has one.
pub proof fn law_sharpness_goes_by_its_name(name: Seq<char>)
    ensures
        ImageSharpness::named("crisp"@) == Some(ImageSharpness::Crisp),
        ImageSharpness::named("smooth"@) == Some(ImageSharpness::Smooth),
        ImageSharpness::named("medium"@) == Some(ImageSharpness::Medium),
        ImageSharpness::named("sharp"@) == Some(ImageSharpness::Sharp),
        ImageSharpness::named(name) is None == (name != "crisp"@ && name != "smooth"@ && name
            != "medium"@ && name != "sharp"@),
{
    reveal_strlit("crisp");
    reveal_strlit("smooth");
    reveal_strlit("medium");
    reveal_strlit("sharp");
    assert("crisp"@[0] == 'c');
    assert("medium"@[0] == 'm');
    assert("smooth"@[1] == 'm');
    assert("sharp"@[1] == 'h');
}

/// Where a moment is known its stamp is shown, and nothing where it is not.
pub proof fn law_only_known_moments_are_stamped(
    time: Option<Moment>,
    stamps: Seq<String>,
    i: int,
)
    ensures
        time is Some && 0 <= i < stamps.len() ==> stamp(time, stamps, i) == stamps[i]@,
        time is None ==> stamp(time, stamps, i).len() == 0,
{
}

/// What is set unless the reader says otherwise: deleting asks first, links can be
/// followed, and nothing unsafe is shown.
pub proof fn law_the_standard_is_careful()
    ensures
        Config::standard().confirm_deletes,
        Config::standard().hyperlinks,
        !Config::standard().nsfw,
        !Config::standard().compact,
        Config::standard().image_sharpness is Crisp,
        Config::standard().image_height == 12,
        Config::standard().preview_length == 160,
{
}

} // verus!
