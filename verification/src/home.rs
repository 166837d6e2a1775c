//! The home page.

use crate::cover::Source;
use vstd::prelude::*;

verus! {

/// The look of the interface.
#[derive(Clone, Copy, PartialEq, Eq, Structural)]
pub enum UiStyle {
    Classic,
    Modern,
}

/// How the home page is laid out.
pub struct HomeLayout {
    /// The style classes of the page.
    pub class: &'static str,
    /// The message key of the page's title, where it has one.
    pub title: Option<&'static str>,
    /// The library that the page shows.
    pub body: Source,
}

/// The style classes of the page.
pub open spec fn page_class(style: UiStyle) -> Seq<char> {
    if style == UiStyle::Modern {
        "px-6 pt-4 pb-24 w-full max-w-[1600px] mx-auto"@
    } else {
        "p-8 space-y-12 pb-32 animate-fade-in w-full max-w-[1600px] mx-auto"@
    }
}

/// Lays the home page out: it shows the library of the active source, and the modern look has
/// tighter margins and no title.
#[allow(non_snake_case)]
pub fn Home(active_source: Source, ui_style: UiStyle) -> (r: HomeLayout)
    ensures
        r.class@ == page_class(ui_style),
        match r.title {
            Some(key) => ui_style != UiStyle::Modern && key@ == "home"@,
            None => ui_style == UiStyle::Modern,
        },
        r.body == active_source,
{
    let modern = ui_style == UiStyle::Modern;
    HomeLayout {
        class: if modern {
            "px-6 pt-4 pb-24 w-full max-w-[1600px] mx-auto"
        } else {
            "p-8 space-y-12 pb-32 animate-fade-in w-full max-w-[1600px] mx-auto"
        },
        title: if modern {
            None
        } else {
            Some("home")
        },
        body: if active_source == Source::Server {
            Source::Server
        } else {
            Source::Local
        },
    }
}

/// Both looks fill the page up to the same width, and the modern one has its own margins.
pub proof fn law_page_class_of_each_style()
    ensures
        page_class(UiStyle::Modern) == "px-6 pt-4 pb-24 "@ + "w-full max-w-[1600px] mx-auto"@,
        page_class(UiStyle::Classic) == "p-8 space-y-12 pb-32 animate-fade-in "@
            + "w-full max-w-[1600px] mx-auto"@,
{
    reveal_strlit("px-6 pt-4 pb-24 ");
    reveal_strlit("p-8 space-y-12 pb-32 animate-fade-in ");
    reveal_strlit("w-full max-w-[1600px] mx-auto");
    reveal_strlit("px-6 pt-4 pb-24 w-full max-w-[1600px] mx-auto");
    reveal_strlit("p-8 space-y-12 pb-32 animate-fade-in w-full max-w-[1600px] mx-auto");
}

} // verus!
