use vstd::prelude::*;
use crate::decimal::{lemma_parse_unsigned_range, parse_u16, parse_unsigned_spec};
use crate::text::{contains, contains_text};

verus! {

/// Whether the timelines shown over a site's page are hidden.
#[derive(Clone, Copy, Debug, PartialEq, Eq, Structural)]
pub enum FavViewerStyle {
    Hidden,
    Normal,
}

/// The pages of Pixiv over which the timelines can be shown.
#[derive(Clone, Copy, Debug, PartialEq, Eq, Structural)]
pub enum FavViewerPage {
    /// The new posts of followed users.
    Follow,
    /// A user's page.
    User,
}

/// How the timelines sit over a site's page: set up and waiting for the app
/// to start, or ready with a style.
#[derive(Clone, Copy, Debug, PartialEq, Eq, Structural)]
pub enum PageInfo {
    Setup { initial_style: FavViewerStyle, page: FavViewerPage },
    Ready { style: FavViewerStyle, page: FavViewerPage },
}

/// The other style.
pub open spec fn toggled(s: FavViewerStyle) -> FavViewerStyle {
    match s {
        FavViewerStyle::Hidden => FavViewerStyle::Normal,
        FavViewerStyle::Normal => FavViewerStyle::Hidden,
    }
}

/// The page with shown timelines hidden and hidden ones shown, once it is
/// ready.
pub open spec fn toggled_page(p: PageInfo) -> PageInfo {
    match p {
        PageInfo::Ready { style, page } => PageInfo::Ready { style: toggled(style), page },
        other => other,
    }
}

/// Toggling the timelines over a page twice leaves it as it was.
pub proof fn toggling_twice_restores(p: PageInfo)
    ensures
        toggled_page(toggled_page(p)) == p,
{
}

impl PageInfo {
    /// Hides shown timelines and shows hidden ones, once the page is ready.
    pub fn toggle_hidden(&mut self)
        ensures
            *final(self) == toggled_page(*old(self)),
    {
        if let PageInfo::Ready { style, .. } = self {
            *style = match style {
                FavViewerStyle::Hidden => FavViewerStyle::Normal,
                FavViewerStyle::Normal => FavViewerStyle::Hidden,
            };
        }
    }

    /// The page as the app takes it when it starts: a set-up page becomes
    /// ready with its first style; one that is ready already is dropped.
    pub fn start(&self) -> (r: Option<PageInfo>)
        ensures
            r == match *self {
                PageInfo::Setup { initial_style, page } => Some(PageInfo::Ready { style: initial_style, page }),
                PageInfo::Ready { .. } => None::<PageInfo>,
            },
    {
        match self {
            PageInfo::Setup { initial_style, page } => Some(PageInfo::Ready { style: *initial_style, page: *page }),
            PageInfo::Ready { .. } => None,
        }
    }
}

/// Which page of Pixiv the address `href` is, if the timelines can be shown
/// over it.
pub fn setup(href: &str) -> (r: Option<FavViewerPage>)
    ensures
        r == if contains_text(href@, "pixiv.net/bookmark_new_illust"@) {
            Some(FavViewerPage::Follow)
        } else if contains_text(href@, "pixiv.net/en/users"@) {
            Some(FavViewerPage::User)
        } else {
            None::<FavViewerPage>
        },
{
    if contains(href, "pixiv.net/bookmark_new_illust") {
        Some(FavViewerPage::Follow)
    } else if contains(href, "pixiv.net/en/users") {
        Some(FavViewerPage::User)
    } else {
        None
    }
}

/// The page number that the `p` parameter `page` names, 1 where there is
/// none or it is no `u16`.
pub open spec fn page_number(page: Option<Seq<char>>) -> int {
    match page {
        Some(p) => match parse_unsigned_spec(p, u16::MAX as int) {
            Ok(n) => n,
            Err(_) => 1,
        },
        None => 1,
    }
}

/// Whether adult posts are asked and which page, counted from 0, the follow
/// timelines start at, from the page's path and its `p` parameter. Page 0 is
/// not a page.
pub fn follow_timeline_args(pathname: &str, page: Option<&str>) -> (r: (bool, u16))
    requires
        page_number(match page { Some(p) => Some(p@), None => None::<Seq<char>> }) != 0,
    ensures
        r.0 == contains_text(pathname@, "r18"@),
        r.1 == page_number(match page { Some(p) => Some(p@), None => None::<Seq<char>> }) - 1,
{
    let r18 = contains(pathname, "r18");
    let current_page: u16 = match page {
        Some(p) => {
            proof {
                lemma_parse_unsigned_range(p@, u16::MAX as int);
            }
            match parse_u16(p) {
                Ok(n) => n,
                Err(_) => 1,
            }
        },
        None => 1,
    };
    (r18, current_page - 1)
}

}
