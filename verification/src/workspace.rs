//! Pages the live menu provides without a dedicated screen: which menu
//! entry a path opens.
use vstd::prelude::*;
use crate::tally::{first_match, is_first, lemma_first_match_at, lemma_first_match_none};
use crate::text::{join_names, joined, name_texts, owned, str_eq};

verus! {

/// An entry of the signed-in account's menu.
#[derive(Clone, Debug)]
pub struct MenuEntry {
    pub name: String,
    pub path: String,
    pub active_path: Option<String>,
    pub component: Option<String>,
}

/// `/{segments joined with /}`.
pub fn route_path(segments: &Vec<String>) -> (r: String)
    ensures
        r@ == seq!['/'] + joined(name_texts(segments@), "/"@),
{
    proof {
        reveal_strlit("/");
    }
    let mut out = String::from_str("/");
    let rest = join_names(segments, "/");
    out.append(rest.as_str());
    out
}

/// A menu entry opens `path` by its path or by its active path.
pub open spec fn opens(path: Seq<char>) -> spec_fn(MenuEntry) -> bool {
    |m: MenuEntry| m.path@ == path || (m.active_path matches Some(a) && a@ == path)
}

/// Place of the first menu entry that opens `path`; `None` means the
/// account may not see the page.
pub fn find_menu(menus: &[MenuEntry], path: &str) -> (r: Option<usize>)
    ensures
        match r {
            Some(i) => first_match(menus@, opens(path@)) == Some(i as int),
            None => first_match(menus@, opens(path@)) is None,
        },
{
    let ghost p = opens(path@);
    let mut i: usize = 0;
    while i < menus.len()
        invariant
            p == opens(path@),
            0 <= i <= menus@.len(),
            forall|k: int| 0 <= k < i ==> !p(#[trigger] menus@[k]),
        decreases menus@.len() - i,
    {
        let by_active = match &menus[i].active_path {
            Some(a) => str_eq(a.as_str(), path),
            None => false,
        };
        if str_eq(menus[i].path.as_str(), path) || by_active {
            proof {
                assert(is_first(menus@, p, i as int));
                lemma_first_match_at(menus@, p, i as int);
            }
            return Some(i);
        }
        i = i + 1;
    }
    proof {
        lemma_first_match_none(menus@, p);
    }
    None
}

/// The component a menu entry names, or `动态业务组件`.
pub fn component_label(menu: &MenuEntry) -> (r: String)
    ensures
        r@ == match menu.component {
            Some(c) => c@,
            None => "动态业务组件"@,
        },
{
    match &menu.component {
        Some(c) => owned(c.as_str()),
        None => String::from_str("动态业务组件"),
    }
}

} // verus!
