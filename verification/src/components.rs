use vstd::prelude::*;

verus! {

/// The style of an icon.
#[derive(Clone, Copy, Debug, PartialEq, Eq, Structural)]
pub enum IconType {
    Solid,
    Regular,
    Brand,
}

/// The size of an icon.
#[derive(Clone, Copy, Debug, PartialEq, Eq, Structural)]
pub enum IconSize {
    ExtraSmall,
    Small,
    Large,
    X2,
    X3,
    X5,
    X7,
    X10,
}

/// How an article is drawn.
#[derive(Clone, Copy, Debug, PartialEq, Eq, Structural)]
pub enum ArticleView {
    Social,
    Gallery,
}

impl IconType {
    /// The icon font's class of the style.
    pub fn class(&self) -> (r: &'static str)
        ensures
            r@ == match *self {
                IconType::Solid => "fas"@,
                IconType::Regular => "far"@,
                IconType::Brand => "fab"@,
            },
    {
        match self {
            IconType::Solid => "fas",
            IconType::Regular => "far",
            IconType::Brand => "fab",
        }
    }
}

impl IconSize {
    /// The icon font's class of the size.
    pub fn class(&self) -> (r: &'static str)
        ensures
            r@ == match *self {
                IconSize::ExtraSmall => "fa-xs"@,
                IconSize::Small => "fa-sm"@,
                IconSize::Large => "fa-lg"@,
                IconSize::X2 => "fa-2x"@,
                IconSize::X3 => "fa-3x"@,
                IconSize::X5 => "fa-5x"@,
                IconSize::X7 => "fa-7x"@,
                IconSize::X10 => "fa-10x"@,
            },
    {
        match self {
            IconSize::ExtraSmall => "fa-xs",
            IconSize::Small => "fa-sm",
            IconSize::Large => "fa-lg",
            IconSize::X2 => "fa-2x",
            IconSize::X3 => "fa-3x",
            IconSize::X5 => "fa-5x",
            IconSize::X7 => "fa-7x",
            IconSize::X10 => "fa-10x",
        }
    }
}

impl ArticleView {
    /// The name of the way of drawing.
    pub fn name(&self) -> (r: &'static str)
        ensures
            r@ == match *self {
                ArticleView::Social => "Social"@,
                ArticleView::Gallery => "Gallery"@,
            },
    {
        match self {
            ArticleView::Social => "Social",
            ArticleView::Gallery => "Gallery",
        }
    }
}

/// Whether an article shows compact: its own choice once made, else the
/// timeline's.
pub fn is_compact(own: Option<bool>, timeline_compact: bool) -> (r: bool)
    ensures
        r == match own { Some(c) => c, None => timeline_compact },
{
    match own {
        Some(c) => c,
        None => timeline_compact,
    }
}

/// An article's own compact choice after toggling it: the opposite of how it
/// showed.
pub fn toggle_compact(own: Option<bool>, timeline_compact: bool) -> (r: Option<bool>)
    ensures
        r == Some(!match own { Some(c) => c, None => timeline_compact }),
{
    Some(!is_compact(own, timeline_compact))
}

/// A dropdown after a click on it: it expands or folds, and tells whoever
/// listens what it is now.
pub fn toggle_expanded(expanded: bool, has_listener: bool) -> (r: (bool, Option<bool>))
    ensures
        r.0 == !expanded,
        r.1 == (if has_listener { Some(!expanded) } else { None::<bool> }),
{
    let e = !expanded;
    (e, if has_listener { Some(e) } else { None })
}

}
