use vstd::prelude::*;

verus! {

/// The colors of the editor window.
#[derive(Clone, Copy, Debug, PartialEq, Eq, Structural)]
pub enum Shade {
    /// Window background, near black.
    Background,
    /// Border while there is nothing worth saving: dark slate.
    Border,
    /// Border once there is something worth saving: amber.
    BorderActive,
    /// The spark in the title: amber.
    Spark,
    /// Typed text: crisp white.
    Text,
    /// Clock and hint text: slate.
    Muted,
    /// Key hints in the footer: dimmed slate.
    Footer,
}

pub open spec fn shade_rgb(s: Shade) -> (u8, u8, u8) {
    match s {
        Shade::Background => (10, 12, 16),
        Shade::Border => (40, 47, 63),
        Shade::BorderActive => (245, 158, 11),
        Shade::Spark => (245, 158, 11),
        Shade::Text => (248, 250, 252),
        Shade::Muted => (100, 116, 139),
        Shade::Footer => (80, 94, 114),
    }
}

/// The red, green and blue of a shade.
pub fn rgb(s: Shade) -> (r: (u8, u8, u8))
    ensures
        r == shade_rgb(s),
{
    match s {
        Shade::Background => (10, 12, 16),
        Shade::Border => (40, 47, 63),
        Shade::BorderActive => (245, 158, 11),
        Shade::Spark => (245, 158, 11),
        Shade::Text => (248, 250, 252),
        Shade::Muted => (100, 116, 139),
        Shade::Footer => (80, 94, 114),
    }
}

/// The border glows amber once the editor holds something worth saving.
pub fn border_shade(has_content: bool) -> (r: Shade)
    ensures
        r == (if has_content {
            Shade::BorderActive
        } else {
            Shade::Border
        }),
{
    if has_content {
        Shade::BorderActive
    } else {
        Shade::Border
    }
}

/// Which of the font files, listed from most to least preferred, to use:
/// the first one that exists.
pub fn preferred_font(exists: &Vec<bool>) -> (r: Option<usize>)
    ensures
        match r {
            Some(i) => i < exists@.len() && exists@[i as int] && forall|j: int|
                0 <= j < i ==> !#[trigger] exists@[j],
            None => forall|j: int| 0 <= j < exists@.len() ==> !#[trigger] exists@[j],
        },
{
    let mut i: usize = 0;
    while i < exists.len()
        invariant
            i <= exists@.len(),
            forall|j: int| 0 <= j < i ==> !#[trigger] exists@[j],
        decreases exists@.len() - i,
    {
        if exists[i] {
            return Some(i);
        }
        i = i + 1;
    }
    None
}

} // verus!
