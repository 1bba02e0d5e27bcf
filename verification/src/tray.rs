//! System-tray bookkeeping: the items a StatusNotifier host reports, their
//! menus, the snapshots handed to the bar, and the requests sent back.

use vstd::prelude::*;
use crate::text::{lemma_lex_antisym, lex_le, same_text, to_chars};
use crate::order::{is_perm, sort_indices};

verus! {

/// One entry of an item's context menu, as the bar shows it.
pub struct MenuEntry {
    pub id: i32,
    pub label: String,
    pub enabled: bool,
    pub separator: bool,
    pub children: Vec<MenuEntry>,
}

/// A tray item as the bar shows it.
#[derive(Clone, Default)]
pub struct TrayItem {
    /// Service address of the item.
    pub id: String,
    pub title: String,
    pub icon_name: Option<String>,
    pub icon_theme_path: Option<String>,
    /// Width, height and ARGB32 data of the icon.
    pub pixmap: Option<(i32, i32, Vec<u8>)>,
    pub menu_path: Option<String>,
    pub menu: Vec<MenuEntry>,
}

/// Requests sent from the bar back to the tray host.
pub enum TrayAction {
    /// Left-click on the item at this address.
    Activate(String),
    /// Click on a menu entry: address, menu path, entry id.
    MenuClick(String, String, i32),
    /// A menu is about to open: address, menu path, menu or submenu id.
    AboutToShow(String, String, i32),
}

/// An icon image offered by an item.
pub struct IconPixmap {
    pub width: i32,
    pub height: i32,
    pub pixels: Vec<u8>,
}

/// Kind of a menu item offered by an item.
pub enum MenuType {
    Separator,
    Standard,
}

/// A menu item as an item's menu offers it.
pub struct MenuItem {
    pub id: i32,
    pub menu_type: MenuType,
    pub label: Option<String>,
    pub enabled: bool,
    pub visible: bool,
    pub submenu: Vec<MenuItem>,
}

/// The menu an item offers.
pub struct TrayMenu {
    pub id: u32,
    pub submenus: Vec<MenuItem>,
}

/// The properties of an item that the bar reads.
pub struct ItemProps {
    pub title: Option<String>,
    pub icon_name: Option<String>,
    pub icon_theme_path: Option<String>,
    pub icon_pixmap: Option<Vec<IconPixmap>>,
    pub menu: Option<String>,
}

/// The mathematical content of a menu entry.
pub struct EntryModel {
    pub id: i32,
    pub label: Seq<char>,
    pub enabled: bool,
    pub separator: bool,
    pub children: Seq<EntryModel>,
}

/// The content of a sequence of menu entries.
pub open spec fn entries_model(es: Seq<MenuEntry>) -> Seq<EntryModel>
    decreases es,
{
    if es.len() == 0 {
        Seq::<EntryModel>::empty()
    } else {
        entries_model(es.subrange(0, es.len() - 1)).push(entry_model(es[es.len() - 1]))
    }
}

/// The content of one menu entry.
pub open spec fn entry_model(e: MenuEntry) -> EntryModel
    decreases e,
{
    EntryModel {
        id: e.id,
        label: e.label@,
        enabled: e.enabled,
        separator: e.separator,
        children: entries_model(e.children@),
    }
}

/// The text of an optional label, empty when absent.
pub open spec fn text_or_empty(o: Option<String>) -> Seq<char> {
    match o {
        Some(s) => s@,
        None => Seq::<char>::empty(),
    }
}

/// The entries the bar shows for a list of offered menu items: the visible
/// ones, in order, each with the entries of its own submenu.
pub open spec fn menu_spec(items: Seq<MenuItem>) -> Seq<EntryModel>
    decreases items,
{
    if items.len() == 0 {
        Seq::<EntryModel>::empty()
    } else {
        let rest = menu_spec(items.subrange(0, items.len() - 1));
        let m = items[items.len() - 1];
        if m.visible {
            rest.push(
                EntryModel {
                    id: m.id,
                    label: text_or_empty(m.label),
                    enabled: m.enabled,
                    separator: m.menu_type is Separator,
                    children: menu_spec(m.submenu@),
                },
            )
        } else {
            rest
        }
    }
}

/// A copy of `s`.
fn copy_string(s: &String) -> (r: String)
    ensures
        r@ == s@,
{
    s.clone()
}

/// The entries the bar shows for a list of offered menu items.
pub fn build_entries(items: &Vec<MenuItem>) -> (r: Vec<MenuEntry>)
    ensures
        entries_model(r@) == menu_spec(items@),
    decreases items@,
{
    let mut r: Vec<MenuEntry> = Vec::new();
    let mut i: usize = 0;
    while i < items.len()
        invariant
            i <= items.len(),
            entries_model(r@) == menu_spec(items@.subrange(0, i as int)),
        decreases items.len() - i,
    {
        let m = &items[i];
        let ghost pre = items@.subrange(0, i as int);
        let ghost cur = items@.subrange(0, i + 1);
        assert(cur.subrange(0, cur.len() - 1) == pre);
        assert(cur[cur.len() - 1] == items@[i as int]);
        if m.visible {
            let label = match &m.label {
                Some(s) => copy_string(s),
                None => String::new(),
            };
            assert(decreases_to!(items@ => items@[i as int]));
            let children = build_entries(&m.submenu);
            let e = MenuEntry {
                id: m.id,
                label,
                enabled: m.enabled,
                separator: match m.menu_type {
                    MenuType::Separator => true,
                    MenuType::Standard => false,
                },
                children,
            };
            let ghost r0 = r@;
            r.push(e);
            assert(r@.subrange(0, r@.len() - 1) == r0);
            assert(entries_model(r@) == entries_model(r0).push(entry_model(e)));
        }
        i = i + 1;
    }
    assert(items@.subrange(0, items@.len() as int) == items@);
    r
}

/// A copy of a list of menu entries.
pub fn copy_entries(es: &Vec<MenuEntry>) -> (r: Vec<MenuEntry>)
    ensures
        entries_model(r@) == entries_model(es@),
    decreases es@,
{
    let mut r: Vec<MenuEntry> = Vec::new();
    let mut i: usize = 0;
    while i < es.len()
        invariant
            i <= es.len(),
            entries_model(r@) == entries_model(es@.subrange(0, i as int)),
        decreases es.len() - i,
    {
        let e = &es[i];
        let ghost cur = es@.subrange(0, i + 1);
        assert(cur.subrange(0, cur.len() - 1) == es@.subrange(0, i as int));
        assert(cur[cur.len() - 1] == es@[i as int]);
        assert(decreases_to!(es@ => es@[i as int]));
        let children = copy_entries(&e.children);
        let c = MenuEntry {
            id: e.id,
            label: copy_string(&e.label),
            enabled: e.enabled,
            separator: e.separator,
            children,
        };
        assert(entry_model(c) == entry_model(es@[i as int]));
        let ghost r0 = r@;
        r.push(c);
        assert(r@.subrange(0, r@.len() - 1) == r0);
        assert(entries_model(r@) == entries_model(r0).push(entry_model(c)));
        assert(entries_model(cur) == entries_model(es@.subrange(0, i as int)).push(
            entry_model(es@[i as int]),
        ));
        i = i + 1;
    }
    assert(es@.subrange(0, es@.len() as int) == es@);
    r
}

/// A list of entries has one content item per entry, in order.
pub proof fn lemma_entries_model(es: Seq<MenuEntry>)
    ensures
        entries_model(es).len() == es.len(),
        forall|k: int| 0 <= k < es.len() ==> #[trigger] entries_model(es)[k] == entry_model(es[k]),
    decreases es.len(),
{
    if es.len() > 0 {
        let pre = es.subrange(0, es.len() - 1);
        lemma_entries_model(pre);
        assert forall|k: int| 0 <= k < es.len() implies #[trigger] entries_model(es)[k] == entry_model(es[k]) by {
            if k < es.len() - 1 {
                assert(pre[k] == es[k]);
            }
        }
    }
}

/// Whether two lists of entries have the same content.
fn entries_equal(a: &Vec<MenuEntry>, b: &Vec<MenuEntry>) -> (r: bool)
    ensures
        r == (entries_model(a@) == entries_model(b@)),
    decreases a@,
{
    proof {
        lemma_entries_model(a@);
        lemma_entries_model(b@);
    }
    if a.len() != b.len() {
        return false;
    }
    let mut i: usize = 0;
    while i < a.len()
        invariant
            a.len() == b.len(),
            i <= a.len(),
            entries_model(a@).len() == a@.len(),
            entries_model(b@).len() == b@.len(),
            forall|k: int| 0 <= k < a@.len() ==> #[trigger] entries_model(a@)[k] == entry_model(a@[k]),
            forall|k: int| 0 <= k < b@.len() ==> #[trigger] entries_model(b@)[k] == entry_model(b@[k]),
            forall|j: int| 0 <= j < i ==> entry_model(#[trigger] a@[j]) == entry_model(b@[j]),
        decreases a.len() - i,
    {
        assert(decreases_to!(a@ => a@[i as int]));
        if !entry_equal(&a[i], &b[i]) {
            assert(entries_model(a@)[i as int] != entries_model(b@)[i as int]);
            return false;
        }
        i = i + 1;
    }
    assert(entries_model(a@) =~= entries_model(b@)) by {
        assert forall|k: int| 0 <= k < a@.len() implies entries_model(a@)[k] == entries_model(b@)[k] by {
            assert(entry_model(a@[k]) == entry_model(b@[k]));
        }
    }
    true
}

/// Whether two entries have the same content.
fn entry_equal(a: &MenuEntry, b: &MenuEntry) -> (r: bool)
    ensures
        r == (entry_model(*a) == entry_model(*b)),
    decreases *a,
{
    if a.id != b.id || a.enabled != b.enabled || a.separator != b.separator {
        return false;
    }
    if !(a.label == b.label) {
        return false;
    }
    entries_equal(&a.children, &b.children)
}

impl PartialEq for MenuEntry {
    fn eq(&self, other: &Self) -> (r: bool) {
        entry_equal(self, other)
    }
}

impl vstd::std_specs::cmp::PartialEqSpecImpl for MenuEntry {
    open spec fn obeys_eq_spec() -> bool {
        true
    }

    open spec fn eq_spec(&self, other: &MenuEntry) -> bool {
        entry_model(*self) == entry_model(*other)
    }
}

impl Clone for MenuEntry {
    fn clone(&self) -> (r: Self)
        ensures
            entry_model(r) == entry_model(*self),
    {
        MenuEntry {
            id: self.id,
            label: copy_string(&self.label),
            enabled: self.enabled,
            separator: self.separator,
            children: copy_entries(&self.children),
        }
    }
}

/// The entries the bar shows for an item's menu.
pub fn menu_entries(menu: &TrayMenu) -> (r: Vec<MenuEntry>)
    ensures
        entries_model(r@) == menu_spec(menu.submenus@),
{
    build_entries(&menu.submenus)
}

/// The area of an icon image.
pub open spec fn area(p: IconPixmap) -> int {
    p.width * p.height
}

/// `v[k]` has the largest area, and no later image has as large a one.
pub open spec fn is_best(v: Seq<IconPixmap>, k: int) -> bool {
    &&& 0 <= k < v.len()
    &&& forall|j: int| 0 <= j < v.len() ==> area(#[trigger] v[j]) <= area(v[k])
    &&& forall|j: int| k < j < v.len() ==> area(#[trigger] v[j]) < area(v[k])
}

/// At most one image is the best one.
pub proof fn lemma_best_unique(v: Seq<IconPixmap>, k1: int, k2: int)
    requires
        is_best(v, k1),
        is_best(v, k2),
    ensures
        k1 == k2,
{
    if k1 < k2 {
        assert(area(v[k2]) < area(v[k1]));
        assert(area(v[k1]) <= area(v[k2]));
    } else if k2 < k1 {
        assert(area(v[k1]) < area(v[k2]));
        assert(area(v[k2]) <= area(v[k1]));
    }
}

/// Every image's area fits in an `i32`.
pub open spec fn areas_fit(v: Seq<IconPixmap>) -> bool {
    forall|j: int| 0 <= j < v.len() ==> i32::MIN <= area(#[trigger] v[j]) <= i32::MAX
}

/// The icon the bar draws for a list of offered images: the one with the
/// largest area (the last of several equally large ones), as width, height
/// and pixels.
pub open spec fn pixmap_spec(pix: Option<Seq<IconPixmap>>) -> Option<(i32, i32, Seq<u8>)> {
    match pix {
        Some(v) => if v.len() > 0 {
            let k = choose|k: int| is_best(v, k);
            Some((v[k].width, v[k].height, v[k].pixels@))
        } else {
            None
        },
        None => None,
    }
}

/// The view of an optional list of images.
pub open spec fn pixmaps_view(pix: Option<&Vec<IconPixmap>>) -> Option<Seq<IconPixmap>> {
    match pix {
        Some(v) => Some(v@),
        None => None,
    }
}

/// The view of an optional icon.
pub open spec fn pixmap_view(p: Option<(i32, i32, Vec<u8>)>) -> Option<(i32, i32, Seq<u8>)> {
    match p {
        Some(t) => Some((t.0, t.1, t.2@)),
        None => None,
    }
}

/// A copy of a byte vector.
fn copy_bytes(v: &Vec<u8>) -> (r: Vec<u8>)
    ensures
        r@ == v@,
{
    let mut r: Vec<u8> = Vec::new();
    let mut i: usize = 0;
    while i < v.len()
        invariant
            i <= v.len(),
            r@ == v@.take(i as int),
        decreases v.len() - i,
    {
        r.push(v[i]);
        assert(v@.take(i + 1) == v@.take(i as int).push(v@[i as int]));
        i = i + 1;
    }
    assert(v@.take(v.len() as int) == v@);
    r
}

/// The icon to draw among the offered images: the largest by area, and of
/// equally large ones the last; none when nothing is offered.
pub fn best_pixmap(pix: Option<&Vec<IconPixmap>>) -> (r: Option<(i32, i32, Vec<u8>)>)
    requires
        pix matches Some(v) ==> areas_fit(v@),
    ensures
        pixmap_view(r) == pixmap_spec(pixmaps_view(pix)),
{
    let v = match pix {
        Some(v) => v,
        None => return None,
    };
    if v.len() == 0 {
        return None;
    }
    let mut k: usize = 0;
    let mut best: i32 = v[0].width * v[0].height;
    let mut i: usize = 1;
    while i < v.len()
        invariant
            areas_fit(v@),
            1 <= i <= v.len(),
            k < i,
            best == area(v@[k as int]),
            forall|j: int| 0 <= j < i ==> area(#[trigger] v@[j]) <= area(v@[k as int]),
            forall|j: int| k < j < i ==> area(#[trigger] v@[j]) < area(v@[k as int]),
        decreases v.len() - i,
    {
        assert(i32::MIN <= area(v@[i as int]) <= i32::MAX);
        let a = v[i].width * v[i].height;
        if a >= best {
            k = i;
            best = a;
        }
        i = i + 1;
    }
    proof {
        assert(is_best(v@, k as int));
        let c = choose|c: int| is_best(v@, c);
        lemma_best_unique(v@, k as int, c);
    }
    Some((v[k].width, v[k].height, copy_bytes(&v[k].pixels)))
}

/// The mathematical content of a tray item.
pub struct ItemModel {
    pub id: Seq<char>,
    pub title: Seq<char>,
    pub icon_name: Option<Seq<char>>,
    pub icon_theme_path: Option<Seq<char>>,
    pub pixmap: Option<(i32, i32, Seq<u8>)>,
    pub menu_path: Option<Seq<char>>,
    pub menu: Seq<EntryModel>,
}

/// The text of an optional string.
pub open spec fn opt_text(o: Option<String>) -> Option<Seq<char>> {
    match o {
        Some(s) => Some(s@),
        None => None,
    }
}

/// The text of an optional icon name, an empty name counting as none.
pub open spec fn icon_name_spec(o: Option<String>) -> Option<Seq<char>> {
    match o {
        Some(s) => if s@.len() > 0 {
            Some(s@)
        } else {
            None
        },
        None => None,
    }
}

/// The content of a tray item.
pub open spec fn item_model(t: TrayItem) -> ItemModel {
    ItemModel {
        id: t.id@,
        title: t.title@,
        icon_name: opt_text(t.icon_name),
        icon_theme_path: opt_text(t.icon_theme_path),
        pixmap: pixmap_view(t.pixmap),
        menu_path: opt_text(t.menu_path),
        menu: entries_model(t.menu@),
    }
}

/// The view of the images an item offers.
pub open spec fn props_pixmaps(o: Option<Vec<IconPixmap>>) -> Option<Seq<IconPixmap>> {
    match o {
        Some(v) => Some(v@),
        None => None,
    }
}

/// The item the bar shows for the properties an item at `addr` reports,
/// before its menu is known.
pub open spec fn to_item_spec(addr: Seq<char>, item: ItemProps) -> ItemModel {
    ItemModel {
        id: addr,
        title: text_or_empty(item.title),
        icon_name: icon_name_spec(item.icon_name),
        icon_theme_path: opt_text(item.icon_theme_path),
        pixmap: pixmap_spec(props_pixmaps(item.icon_pixmap)),
        menu_path: opt_text(item.menu),
        menu: Seq::<EntryModel>::empty(),
    }
}

/// The images of `item` have areas that fit in an `i32`.
pub open spec fn props_fit(item: ItemProps) -> bool {
    item.icon_pixmap matches Some(v) ==> areas_fit(v@)
}

/// A copy of an optional string.
fn copy_opt(o: &Option<String>) -> (r: Option<String>)
    ensures
        opt_text(r) == opt_text(*o),
{
    match o {
        Some(s) => Some(copy_string(s)),
        None => None,
    }
}

/// An optional icon name, an empty name counting as none.
fn nonempty_name(o: &Option<String>) -> (r: Option<String>)
    ensures
        opt_text(r) == icon_name_spec(*o),
{
    match o {
        Some(s) => if s.as_str().is_empty() {
            None
        } else {
            Some(copy_string(s))
        },
        None => None,
    }
}

/// The item the bar shows for the properties an item at `addr` reports; its
/// menu stays empty until the menu arrives.
pub fn to_item(addr: &str, item: &ItemProps) -> (r: TrayItem)
    requires
        props_fit(*item),
    ensures
        item_model(r) == to_item_spec(addr@, *item),
{
    let title = match &item.title {
        Some(t) => copy_string(t),
        None => String::new(),
    };
    let pixmap = match &item.icon_pixmap {
        Some(v) => best_pixmap(Some(v)),
        None => best_pixmap(None),
    };
    let r = TrayItem {
        id: String::from_str(addr),
        title,
        icon_name: nonempty_name(&item.icon_name),
        icon_theme_path: copy_opt(&item.icon_theme_path),
        pixmap,
        menu_path: copy_opt(&item.menu),
        menu: Vec::new(),
    };
    assert(entries_model(r.menu@) =~= Seq::<EntryModel>::empty());
    r
}

/// A copy of an optional icon.
fn copy_pixmap(p: &Option<(i32, i32, Vec<u8>)>) -> (r: Option<(i32, i32, Vec<u8>)>)
    ensures
        pixmap_view(r) == pixmap_view(*p),
{
    match p {
        Some(t) => Some((t.0, t.1, copy_bytes(&t.2))),
        None => None,
    }
}

/// A copy of a tray item.
pub fn copy_item(t: &TrayItem) -> (r: TrayItem)
    ensures
        item_model(r) == item_model(*t),
{
    TrayItem {
        id: copy_string(&t.id),
        title: copy_string(&t.title),
        icon_name: copy_opt(&t.icon_name),
        icon_theme_path: copy_opt(&t.icon_theme_path),
        pixmap: copy_pixmap(&t.pixmap),
        menu_path: copy_opt(&t.menu_path),
        menu: copy_entries(&t.menu),
    }
}

/// The items a tray host currently knows, one per service address.
pub struct TrayRegistry {
    items: Vec<TrayItem>,
}

impl TrayRegistry {
    /// No two items share an address.
    #[verifier::type_invariant]
    spec fn wf(&self) -> bool {
        forall|i: int, j: int|
            0 <= i < j < self.items@.len() ==> (#[trigger] self.items@[i]).id@ != (
            #[trigger] self.items@[j]).id@
    }

    /// Some item has address `k`.
    pub closed spec fn has(&self, k: Seq<char>) -> bool {
        exists|i: int| 0 <= i < self.items@.len() && (#[trigger] self.items@[i]).id@ == k
    }

    /// The position of the item with address `k`.
    closed spec fn index_of(&self, k: Seq<char>) -> int {
        choose|i: int| 0 <= i < self.items@.len() && (#[trigger] self.items@[i]).id@ == k
    }

    /// The items by address.
    pub closed spec fn view(&self) -> Map<Seq<char>, ItemModel> {
        Map::new(|k: Seq<char>| self.has(k), |k: Seq<char>| item_model(self.items@[self.index_of(k)]))
    }

    proof fn lemma_view_at(&self, i: int)
        requires
            self.wf(),
            0 <= i < self.items@.len(),
        ensures
            self.view().contains_key(self.items@[i].id@),
            self.view()[self.items@[i].id@] == item_model(self.items@[i]),
    {
        let k = self.items@[i].id@;
        assert(self.has(k));
        let j = self.index_of(k);
        if j != i {
            if j < i {
                assert(self.items@[j].id@ != self.items@[i].id@);
            } else {
                assert(self.items@[i].id@ != self.items@[j].id@);
            }
        }
    }

    proof fn lemma_not_in(&self, k: Seq<char>)
        requires
            !self.has(k),
        ensures
            !self.view().contains_key(k),
    {
    }

    /// An empty registry.
    pub fn new() -> (r: Self)
        ensures
            r.view() == Map::<Seq<char>, ItemModel>::empty(),
    {
        let r = TrayRegistry { items: Vec::new() };
        assert(r.view() =~= Map::<Seq<char>, ItemModel>::empty());
        r
    }

    /// The number of items.
    pub fn len(&self) -> (n: usize)
        ensures
            n == self.view().len(),
    {
        proof {
            use_type_invariant(self);
            self.lemma_len();
        }
        self.items.len()
    }

    proof fn lemma_len(&self)
        requires
            self.wf(),
        ensures
            self.items@.len() == self.view().len(),
    {
        let ids = self.items@.map_values(|t: TrayItem| t.id@);
        assert(ids.no_duplicates()) by {
            assert forall|i: int, j: int| 0 <= i < ids.len() && 0 <= j < ids.len() && i != j implies ids[i] != ids[j] by {
                if i < j {
                    assert(self.items@[i].id@ != self.items@[j].id@);
                } else {
                    assert(self.items@[j].id@ != self.items@[i].id@);
                }
            }
        }
        assert(self.view().dom() =~= ids.to_set()) by {
            assert forall|k: Seq<char>| self.view().dom().contains(k) <==> ids.to_set().contains(k) by {
                if self.has(k) {
                    let i = self.index_of(k);
                    assert(ids[i] == k);
                }
                if ids.to_set().contains(k) {
                    assert(ids.contains(k));
                    let i = choose|i: int| 0 <= i < ids.len() && ids[i] == k;
                    assert(self.items@[i].id@ == k);
                }
            }
        }
        ids.unique_seq_to_set();
    }

    /// The position of the item with address `addr`, if any.
    fn find(&self, addr: &str) -> (r: Option<usize>)
        ensures
            match r {
                Some(i) => i < self.items@.len() && self.items@[i as int].id@ == addr@,
                None => !self.has(addr@),
            },
    {
        let mut i: usize = 0;
        while i < self.items.len()
            invariant
                i <= self.items@.len(),
                forall|j: int| 0 <= j < i ==> (#[trigger] self.items@[j]).id@ != addr@,
            decreases self.items.len() - i,
        {
            if same_text(self.items[i].id.as_str(), addr) {
                return Some(i);
            }
            i = i + 1;
        }
        None
    }

    /// Store `item` under its address, replacing any item already there.
    pub fn insert(&mut self, item: TrayItem)
        ensures
            final(self).view() == old(self).view().insert(item.id@, item_model(item)),
    {
        proof {
            use_type_invariant(&*self);
        }
        let ghost m = item_model(item);
        let ghost k0 = item.id@;
        match self.find(item.id.as_str()) {
            Some(i) => {
                let ghost o = *old(self);
                let mut items: Vec<TrayItem> = Vec::new();
                std::mem::swap(&mut items, &mut self.items);
                items.set(i, item);
                assert forall|a: int, b: int| 0 <= a < b < items@.len() implies (
                #[trigger] items@[a]).id@ != (#[trigger] items@[b]).id@ by {
                    assert(o.items@[a].id@ != o.items@[b].id@);
                }
                self.items = items;
                assert forall|k: Seq<char>| self.has(k) <==> o.has(k) || k == k0 by {
                    if self.has(k) {
                        let j = self.index_of(k);
                        if j != i {
                            assert(o.items@[j].id@ == k);
                        }
                    }
                    if o.has(k) {
                        let j = o.index_of(k);
                        assert(self.items@[j].id@ == k);
                    }
                    if k == k0 {
                        assert(self.items@[i as int].id@ == k);
                    }
                }
                assert forall|k: Seq<char>| #[trigger] self.view().contains_key(k) implies self.view()[k]
                    == o.view().insert(k0, m)[k] by {
                    let j = self.index_of(k);
                    self.lemma_view_at(j);
                    if j != i {
                        o.lemma_view_at(j);
                    }
                }
                assert(self.view() =~= o.view().insert(k0, m));
            },
            None => {
                let ghost o = *old(self);
                let mut items: Vec<TrayItem> = Vec::new();
                std::mem::swap(&mut items, &mut self.items);
                items.push(item);
                let n = items.len() - 1;
                assert forall|a: int, b: int| 0 <= a < b < items@.len() implies (
                #[trigger] items@[a]).id@ != (#[trigger] items@[b]).id@ by {
                    if b < n {
                        assert(o.items@[a].id@ != o.items@[b].id@);
                    } else {
                        assert(items@[a] == o.items@[a]);
                        assert(o.has(o.items@[a].id@));
                    }
                }
                self.items = items;
                assert forall|k: Seq<char>| self.has(k) <==> o.has(k) || k == k0 by {
                    if self.has(k) {
                        let j = self.index_of(k);
                        if j != n {
                            assert(o.items@[j].id@ == k);
                        }
                    }
                    if o.has(k) {
                        let j = o.index_of(k);
                        assert(self.items@[j].id@ == k);
                    }
                    if k == k0 {
                        assert(self.items@[n as int].id@ == k);
                    }
                }
                assert forall|k: Seq<char>| #[trigger] self.view().contains_key(k) implies self.view()[k]
                    == o.view().insert(k0, m)[k] by {
                    let j = self.index_of(k);
                    self.lemma_view_at(j);
                    if j != n {
                        o.lemma_view_at(j);
                    }
                }
                assert(self.view() =~= o.view().insert(k0, m));
            },
        }
    }

    /// Drop the item at address `addr`, if there is one.
    pub fn remove(&mut self, addr: &str)
        ensures
            final(self).view() == old(self).view().remove(addr@),
    {
        proof {
            use_type_invariant(&*self);
        }
        let ghost o = *old(self);
        match self.find(addr) {
            Some(i) => {
                let mut items: Vec<TrayItem> = Vec::new();
                std::mem::swap(&mut items, &mut self.items);
                items.remove(i);
                assert forall|a: int, b: int| 0 <= a < b < items@.len() implies (
                #[trigger] items@[a]).id@ != (#[trigger] items@[b]).id@ by {
                    if a < i && b < i {
                        assert(o.items@[a].id@ != o.items@[b].id@);
                    } else if a < i {
                        assert(o.items@[a].id@ != o.items@[b + 1].id@);
                    } else {
                        assert(o.items@[a + 1].id@ != o.items@[b + 1].id@);
                    }
                }
                self.items = items;
                assert forall|k: Seq<char>| self.has(k) <==> o.has(k) && k != addr@ by {
                    if self.has(k) {
                        let j = self.index_of(k);
                        if j < i {
                            assert(o.items@[j].id@ == k);
                            assert(o.items@[j].id@ != o.items@[i as int].id@);
                        } else {
                            assert(o.items@[j + 1].id@ == k);
                            assert(o.items@[i as int].id@ != o.items@[j + 1].id@);
                        }
                    }
                    if o.has(k) && k != addr@ {
                        let j = o.index_of(k);
                        if j < i {
                            assert(self.items@[j].id@ == k);
                        } else {
                            assert(j != i);
                            assert(self.items@[j - 1].id@ == k);
                        }
                    }
                }
                assert forall|k: Seq<char>| #[trigger] self.view().contains_key(k) implies self.view()[k]
                    == o.view().remove(addr@)[k] by {
                    let j = self.index_of(k);
                    self.lemma_view_at(j);
                    if j < i {
                        o.lemma_view_at(j);
                    } else {
                        o.lemma_view_at(j + 1);
                    }
                }
                assert(self.view() =~= o.view().remove(addr@));
            },
            None => {
                assert(self.view() =~= o.view().remove(addr@));
            },
        }
    }
}

/// Every item of `reg` appears in `out`, once, unchanged, and `out` is in
/// strictly increasing address order.
pub open spec fn is_snapshot(reg: TrayRegistry, out: Seq<TrayItem>) -> bool {
    &&& forall|k: int|
        0 <= k < out.len() ==> reg.view().contains_key((#[trigger] out[k]).id@) && reg.view()[out[k].id@]
            == item_model(out[k])
    &&& forall|a: Seq<char>|
        reg.view().contains_key(a) ==> exists|k: int| 0 <= k < out.len() && (#[trigger] out[k]).id@ == a
    &&& forall|x: int, y: int|
        0 <= x < y < out.len() ==> lex_le((#[trigger] out[x]).id@, (#[trigger] out[y]).id@) && out[x].id@
            != out[y].id@
}

/// The items of the registry, ordered by address, for the bar to render.
pub fn snapshot(items: &TrayRegistry) -> (r: Vec<TrayItem>)
    ensures
        is_snapshot(*items, r@),
{
    proof {
        use_type_invariant(items);
    }
    let n = items.items.len();
    let mut keys: Vec<Vec<char>> = Vec::new();
    let mut i: usize = 0;
    while i < n
        invariant
            n == items.items@.len(),
            i <= n,
            keys@.len() == i,
            forall|j: int| 0 <= j < i ==> (#[trigger] keys@[j])@ == items.items@[j].id@,
        decreases n - i,
    {
        keys.push(to_chars(items.items[i].id.as_str()));
        i = i + 1;
    }
    let ghost kv = keys@.map_values(|k: Vec<char>| k@);
    let p = sort_indices(&keys);
    let mut out: Vec<TrayItem> = Vec::new();
    let mut k: usize = 0;
    while k < n
        invariant
            n == items.items@.len(),
            n == keys@.len(),
            kv == keys@.map_values(|k: Vec<char>| k@),
            forall|j: int| 0 <= j < n ==> (#[trigger] keys@[j])@ == items.items@[j].id@,
            is_perm(p@, n as nat),
            k <= n,
            out@.len() == k,
            forall|j: int| 0 <= j < k ==> item_model(#[trigger] out@[j]) == item_model(items.items@[p@[j] as int]),
        decreases n - k,
    {
        let t = copy_item(&items.items[p[k]]);
        out.push(t);
        k = k + 1;
    }
    proof {
        assert forall|j: int| 0 <= j < out@.len() implies items.view().contains_key((#[trigger] out@[j]).id@)
            && items.view()[out@[j].id@] == item_model(out@[j]) by {
            items.lemma_view_at(p@[j] as int);
        }
        assert forall|a: Seq<char>| items.view().contains_key(a) implies exists|j: int|
            0 <= j < out@.len() && (#[trigger] out@[j]).id@ == a by {
            let i = items.index_of(a);
            assert(p@.contains(i as usize));
            let j = choose|j: int| 0 <= j < p@.len() && p@[j] == i as usize;
            assert(out@[j].id@ == a);
        }
        assert forall|x: int, y: int| 0 <= x < y < out@.len() implies lex_le(
            (#[trigger] out@[x]).id@,
            (#[trigger] out@[y]).id@,
        ) && out@[x].id@ != out@[y].id@ by {
            assert(lex_le(kv[p@[x] as int], kv[p@[y] as int]));
            assert(p@[x] != p@[y]);
            if p@[x] < p@[y] {
                assert(items.items@[p@[x] as int].id@ != items.items@[p@[y] as int].id@);
            } else {
                assert(items.items@[p@[y] as int].id@ != items.items@[p@[x] as int].id@);
            }
        }
    }
    out
}

/// What the tray host reports about its items.
pub enum TrayEvent {
    /// A new item at an address, with its properties.
    Add(String, ItemProps),
    /// New icon name and images for the item at an address.
    Icon(String, Option<String>, Option<Vec<IconPixmap>>),
    /// New title for the item at an address.
    Title(String, Option<String>),
    /// New menu for the item at an address.
    Menu(String, TrayMenu),
    /// Any other change to the item at an address; nothing the bar shows.
    Other(String),
    /// The item at an address went away.
    Remove(String),
}

/// What the host loop does after an event.
pub struct TrayStep {
    /// Whether to send the bar a fresh snapshot.
    pub changed: bool,
    /// Address and menu path of a new item whose menu should be told it is
    /// about to show, so that lazily built menus get populated.
    pub about_to_show: Option<(String, String)>,
}

/// The images whose areas an event makes the host compute fit in an `i32`:
/// those of a new item, and those of an icon update for a known item.
pub open spec fn event_fits(m: Map<Seq<char>, ItemModel>, ev: TrayEvent) -> bool {
    match ev {
        TrayEvent::Add(_, p) => props_fit(p),
        TrayEvent::Icon(addr, _, pix) => m.contains_key(addr@) ==> (pix matches Some(v) ==> areas_fit(v@)),
        _ => true,
    }
}

/// The items by address after an event.
pub open spec fn handle_spec(m: Map<Seq<char>, ItemModel>, ev: TrayEvent) -> Map<Seq<char>, ItemModel> {
    match ev {
        TrayEvent::Add(addr, p) => m.insert(addr@, to_item_spec(addr@, p)),
        TrayEvent::Icon(addr, name, pix) => if m.contains_key(addr@) {
            m.insert(
                addr@,
                ItemModel {
                    icon_name: icon_name_spec(name),
                    pixmap: pixmap_spec(props_pixmaps(pix)),
                    ..m[addr@]
                },
            )
        } else {
            m
        },
        TrayEvent::Title(addr, t) => if m.contains_key(addr@) {
            m.insert(addr@, ItemModel { title: text_or_empty(t), ..m[addr@] })
        } else {
            m
        },
        TrayEvent::Menu(addr, menu) => if m.contains_key(addr@) {
            m.insert(addr@, ItemModel { menu: menu_spec(menu.submenus@), ..m[addr@] })
        } else {
            m
        },
        TrayEvent::Other(_) => m,
        TrayEvent::Remove(addr) => m.remove(addr@),
    }
}

/// Whether an event changes what the bar shows: additions always do;
/// removals, icon, title and menu updates do for a known item.
pub open spec fn changed_spec(m: Map<Seq<char>, ItemModel>, ev: TrayEvent) -> bool {
    match ev {
        TrayEvent::Add(_, _) => true,
        TrayEvent::Icon(addr, _, _) => m.contains_key(addr@),
        TrayEvent::Title(addr, _) => m.contains_key(addr@),
        TrayEvent::Menu(addr, _) => m.contains_key(addr@),
        TrayEvent::Other(_) => false,
        TrayEvent::Remove(addr) => m.contains_key(addr@),
    }
}

/// The menu to poke after an event: that of a newly added item, if it has one.
pub open spec fn poke_spec(ev: TrayEvent) -> Option<(Seq<char>, Seq<char>)> {
    match ev {
        TrayEvent::Add(addr, p) => match p.menu {
            Some(mp) => Some((addr@, mp@)),
            None => None,
        },
        _ => None,
    }
}

/// The view of the menu to poke.
pub open spec fn poke_view(o: Option<(String, String)>) -> Option<(Seq<char>, Seq<char>)> {
    match o {
        Some(t) => Some((t.0@, t.1@)),
        None => None,
    }
}

impl TrayRegistry {
    /// A copy of the item at position `i`.
    fn copy_at(&self, i: usize) -> (r: TrayItem)
        requires
            i < self.items@.len(),
        ensures
            r.id@ == self.items@[i as int].id@,
            self.view().contains_key(r.id@),
            item_model(r) == self.view()[r.id@],
    {
        proof {
            use_type_invariant(self);
            self.lemma_view_at(i as int);
        }
        copy_item(&self.items[i])
    }

    /// Whether an item is registered at address `addr`.
    pub fn contains(&self, addr: &str) -> (r: bool)
        ensures
            r == self.view().contains_key(addr@),
    {
        match self.find(addr) {
            Some(i) => {
                proof {
                    use_type_invariant(self);
                    self.lemma_view_at(i as int);
                }
                true
            },
            None => false,
        }
    }

    /// Store the initial state of an item: its properties and, when known,
    /// its menu.
    pub fn load(&mut self, addr: &str, props: &ItemProps, menu: Option<&TrayMenu>)
        requires
            props_fit(*props),
        ensures
            final(self).view() == old(self).view().insert(
                addr@,
                ItemModel {
                    menu: match menu {
                        Some(m) => menu_spec(m.submenus@),
                        None => Seq::<EntryModel>::empty(),
                    },
                    ..to_item_spec(addr@, *props)
                },
            ),
    {
        let mut it = to_item(addr, props);
        if let Some(m) = menu {
            it.menu = menu_entries(m);
        }
        self.insert(it);
    }

    /// Apply an event from the tray host; the step says whether the bar needs
    /// a fresh snapshot and which new menu to poke.
    pub fn handle(&mut self, ev: TrayEvent) -> (step: TrayStep)
        requires
            event_fits(old(self).view(), ev),
        ensures
            final(self).view() == handle_spec(old(self).view(), ev),
            step.changed == changed_spec(old(self).view(), ev),
            poke_view(step.about_to_show) == poke_spec(ev),
    {
        match ev {
            TrayEvent::Add(addr, props) => {
                let it = to_item(addr.as_str(), &props);
                self.insert(it);
                let poke = match &props.menu {
                    Some(mp) => Some((copy_string(&addr), copy_string(mp))),
                    None => None,
                };
                TrayStep { changed: true, about_to_show: poke }
            },
            TrayEvent::Icon(addr, name, pix) => {
                match self.find(addr.as_str()) {
                    Some(i) => {
                        let mut it = self.copy_at(i);
                        it.icon_name = nonempty_name(&name);
                        it.pixmap = match &pix {
                            Some(v) => best_pixmap(Some(v)),
                            None => best_pixmap(None),
                        };
                        self.insert(it);
                        TrayStep { changed: true, about_to_show: None }
                    },
                    None => {
                        proof {
                            self.lemma_not_in(addr@);
                        }
                        TrayStep { changed: false, about_to_show: None }
                    },
                }
            },
            TrayEvent::Title(addr, t) => {
                match self.find(addr.as_str()) {
                    Some(i) => {
                        let mut it = self.copy_at(i);
                        it.title = match &t {
                            Some(s) => copy_string(s),
                            None => String::new(),
                        };
                        self.insert(it);
                        TrayStep { changed: true, about_to_show: None }
                    },
                    None => {
                        proof {
                            self.lemma_not_in(addr@);
                        }
                        TrayStep { changed: false, about_to_show: None }
                    },
                }
            },
            TrayEvent::Menu(addr, menu) => {
                match self.find(addr.as_str()) {
                    Some(i) => {
                        let mut it = self.copy_at(i);
                        it.menu = menu_entries(&menu);
                        self.insert(it);
                        TrayStep { changed: true, about_to_show: None }
                    },
                    None => {
                        proof {
                            self.lemma_not_in(addr@);
                        }
                        TrayStep { changed: false, about_to_show: None }
                    },
                }
            },
            TrayEvent::Other(_) => TrayStep { changed: false, about_to_show: None },
            TrayEvent::Remove(addr) => {
                let known = self.contains(addr.as_str());
                self.remove(addr.as_str());
                TrayStep { changed: known, about_to_show: None }
            },
        }
    }
}

/// `s` is in strictly increasing code-point order.
pub open spec fn strictly_sorted(s: Seq<Seq<char>>) -> bool {
    forall|a: int, b: int|
        0 <= a < b < s.len() ==> lex_le(#[trigger] s[a], #[trigger] s[b]) && s[a] != s[b]
}

/// Two strictly sorted sequences with the same elements are equal.
pub proof fn lemma_sorted_unique(s: Seq<Seq<char>>, t: Seq<Seq<char>>)
    requires
        strictly_sorted(s),
        strictly_sorted(t),
        forall|x: Seq<char>| s.contains(x) <==> t.contains(x),
    ensures
        s == t,
    decreases s.len(),
{
    if s.len() == 0 {
        if t.len() > 0 {
            assert(t.contains(t[0]));
        }
        assert(s =~= t);
    } else {
        assert(s.contains(s[0]));
        assert(t.len() > 0);
        assert(t.contains(t[0]));
        let j = choose|j: int| 0 <= j < s.len() && s[j] == t[0];
        let k = choose|k: int| 0 <= k < t.len() && t[k] == s[0];
        if s[0] != t[0] {
            assert(j > 0 && k > 0);
            assert(lex_le(s[0], s[j]));
            assert(lex_le(t[0], t[k]));
            lemma_lex_antisym(s[0], t[0]);
        }
        let s1 = s.drop_first();
        let t1 = t.drop_first();
        assert forall|x: Seq<char>| s1.contains(x) <==> t1.contains(x) by {
            if s1.contains(x) {
                let a = choose|a: int| 0 <= a < s1.len() && s1[a] == x;
                assert(s[a + 1] == x);
                assert(s[0] != s[a + 1]);
                assert(s.contains(x));
                let b = choose|b: int| 0 <= b < t.len() && t[b] == x;
                assert(b != 0);
                assert(t1[b - 1] == x);
            }
            if t1.contains(x) {
                let a = choose|a: int| 0 <= a < t1.len() && t1[a] == x;
                assert(t[a + 1] == x);
                assert(t[0] != t[a + 1]);
                assert(t.contains(x));
                let b = choose|b: int| 0 <= b < s.len() && s[b] == x;
                assert(b != 0);
                assert(s1[b - 1] == x);
            }
        }
        lemma_sorted_unique(s1, t1);
        assert(s =~= seq![s[0]] + s1);
        assert(t =~= seq![t[0]] + t1);
    }
}

/// The addresses of a list of items, in order.
pub open spec fn ids_of(out: Seq<TrayItem>) -> Seq<Seq<char>> {
    out.map_values(|t: TrayItem| t.id@)
}

/// A snapshot depends only on what the registry holds: any two snapshots of
/// the same registry list the same items in the same order.
pub proof fn law_snapshot_unique(reg: TrayRegistry, a: Seq<TrayItem>, b: Seq<TrayItem>)
    requires
        is_snapshot(reg, a),
        is_snapshot(reg, b),
    ensures
        a.len() == b.len(),
        forall|k: int| 0 <= k < a.len() ==> item_model(#[trigger] a[k]) == item_model(b[k]),
{
    let ia = ids_of(a);
    let ib = ids_of(b);
    assert forall|x: Seq<char>| ia.contains(x) <==> ib.contains(x) by {
        if ia.contains(x) {
            let k = choose|k: int| 0 <= k < ia.len() && ia[k] == x;
            assert(reg.view().contains_key(a[k].id@));
            let j = choose|j: int| 0 <= j < b.len() && (#[trigger] b[j]).id@ == x;
            assert(ib[j] == x);
        }
        if ib.contains(x) {
            let k = choose|k: int| 0 <= k < ib.len() && ib[k] == x;
            assert(reg.view().contains_key(b[k].id@));
            let j = choose|j: int| 0 <= j < a.len() && (#[trigger] a[j]).id@ == x;
            assert(ia[j] == x);
        }
    }
    assert forall|x: int, y: int| 0 <= x < y < ia.len() implies lex_le(#[trigger] ia[x], #[trigger] ia[y]) && ia[x] != ia[y] by {
        assert(lex_le(a[x].id@, a[y].id@) && a[x].id@ != a[y].id@);
    }
    assert forall|x: int, y: int| 0 <= x < y < ib.len() implies lex_le(#[trigger] ib[x], #[trigger] ib[y]) && ib[x] != ib[y] by {
        assert(lex_le(b[x].id@, b[y].id@) && b[x].id@ != b[y].id@);
    }
    lemma_sorted_unique(ia, ib);
    assert forall|k: int| 0 <= k < a.len() implies item_model(#[trigger] a[k]) == item_model(b[k]) by {
        assert(ia[k] == ib[k]);
        assert(reg.view()[a[k].id@] == item_model(a[k]));
        assert(reg.view()[b[k].id@] == item_model(b[k]));
    }
}

/// Adding an item at an address that was free and then removing that
/// address gives back the registry it started from.
pub proof fn law_add_then_remove(m: Map<Seq<char>, ItemModel>, addr: String, props: ItemProps, gone: String)
    requires
        !m.contains_key(addr@),
        gone@ == addr@,
    ensures
        handle_spec(handle_spec(m, TrayEvent::Add(addr, props)), TrayEvent::Remove(gone)) == m,
{
    assert(m.insert(addr@, to_item_spec(addr@, props)).remove(addr@) =~= m);
}

/// Updates never add or drop items, and updates for an unknown address
/// change nothing and ask for no redraw.
pub proof fn law_updates_keep_addresses(m: Map<Seq<char>, ItemModel>, ev: TrayEvent)
    requires
        !(ev is Add),
        !(ev is Remove),
    ensures
        handle_spec(m, ev).dom() == m.dom(),
        match ev {
            TrayEvent::Icon(a, _, _) => !m.contains_key(a@) ==> handle_spec(m, ev) == m && !changed_spec(m, ev),
            TrayEvent::Title(a, _) => !m.contains_key(a@) ==> handle_spec(m, ev) == m && !changed_spec(m, ev),
            TrayEvent::Menu(a, _) => !m.contains_key(a@) ==> handle_spec(m, ev) == m && !changed_spec(m, ev),
            TrayEvent::Other(_) => handle_spec(m, ev) == m && !changed_spec(m, ev),
            _ => true,
        },
{
    match ev {
        TrayEvent::Icon(a, n, p) => {
            if m.contains_key(a@) {
                assert(handle_spec(m, ev).dom() =~= m.dom());
            }
        },
        TrayEvent::Title(a, t) => {
            if m.contains_key(a@) {
                assert(handle_spec(m, ev).dom() =~= m.dom());
            }
        },
        TrayEvent::Menu(a, mm) => {
            if m.contains_key(a@) {
                assert(handle_spec(m, ev).dom() =~= m.dom());
            }
        },
        _ => {},
    }
}

/// Removing an address the registry does not know changes nothing and
/// asks for no redraw; removing a known one drops it and asks for one.
pub proof fn law_remove(m: Map<Seq<char>, ItemModel>, addr: String)
    ensures
        !m.contains_key(addr@) ==> handle_spec(m, TrayEvent::Remove(addr)) == m && !changed_spec(
            m,
            TrayEvent::Remove(addr),
        ),
        m.contains_key(addr@) ==> !handle_spec(m, TrayEvent::Remove(addr)).contains_key(addr@)
            && changed_spec(m, TrayEvent::Remove(addr)),
{
    if !m.contains_key(addr@) {
        assert(m.remove(addr@) =~= m);
    }
}

/// A non-empty list of images has a best one.
pub proof fn lemma_best_exists(v: Seq<IconPixmap>)
    requires
        v.len() > 0,
    ensures
        exists|k: int| is_best(v, k),
    decreases v.len(),
{
    let last = v.len() - 1;
    if v.len() == 1 {
        assert(is_best(v, 0));
    } else {
        let w = v.drop_last();
        lemma_best_exists(w);
        let k = choose|k: int| is_best(w, k);
        assert(forall|j: int| 0 <= j < w.len() ==> #[trigger] w[j] == v[j]);
        if area(v[last]) >= area(v[k]) {
            assert forall|j: int| 0 <= j < v.len() implies area(#[trigger] v[j]) <= area(v[last]) by {
                if j < last {
                    assert(area(w[j]) <= area(w[k]));
                }
            }
            assert(is_best(v, last));
        } else {
            assert forall|j: int| 0 <= j < v.len() implies area(#[trigger] v[j]) <= area(v[k]) by {
                if j < last {
                    assert(area(w[j]) <= area(w[k]));
                }
            }
            assert forall|j: int| k < j < v.len() implies area(#[trigger] v[j]) < area(v[k]) by {
                if j < last {
                    assert(area(w[j]) < area(w[k]));
                }
            }
            assert(is_best(v, k));
        }
    }
}

/// The icon of an item built from reported properties is one of the offered
/// images, with the largest width times height, and no later image is as
/// large; there is no icon only when no image is offered.
pub proof fn law_item_icon(addr: Seq<char>, item: ItemProps)
    ensures
        item.icon_pixmap matches Some(v) ==> (v@.len() > 0 ==> exists|k: int|
            0 <= k < v@.len() && to_item_spec(addr, item).pixmap == Some(
                (v@[k].width, v@[k].height, v@[k].pixels@),
            ) && (forall|j: int|
                0 <= j < v@.len() ==> (#[trigger] v@[j]).width * v@[j].height <= v@[k].width
                    * v@[k].height) && (forall|j: int|
                k < j < v@.len() ==> (#[trigger] v@[j]).width * v@[j].height < v@[k].width
                    * v@[k].height)),
        item.icon_pixmap matches Some(v) ==> (v@.len() == 0 ==> to_item_spec(addr, item).pixmap is None),
        item.icon_pixmap is None ==> to_item_spec(addr, item).pixmap is None,
{
    if item.icon_pixmap is Some {
        let v = item.icon_pixmap->0;
        if v@.len() > 0 {
            lemma_best_exists(v@);
            let c = choose|c: int| is_best(v@, c);
            assert forall|j: int| 0 <= j < v@.len() implies (#[trigger] v@[j]).width * v@[j].height
                <= v@[c].width * v@[c].height by {
                assert(area(v@[j]) <= area(v@[c]));
            }
            assert forall|j: int| c < j < v@.len() implies (#[trigger] v@[j]).width * v@[j].height
                < v@[c].width * v@[c].height by {
                assert(area(v@[j]) < area(v@[c]));
            }
        }
    }
}

/// The menu items a list of items shows: the visible ones, in order.
pub open spec fn shown_items(items: Seq<MenuItem>) -> Seq<MenuItem> {
    items.filter(|m: MenuItem| m.visible)
}

/// The bar shows one entry per visible menu item, in order, and each entry
/// keeps that item's id, enabled flag and kind, its label (empty when it has
/// none), and the entries of its own submenu; hidden items show nothing.
pub proof fn law_menu_keeps_visible_items(items: Seq<MenuItem>)
    ensures
        menu_spec(items).len() == shown_items(items).len(),
        forall|i: int|
            0 <= i < menu_spec(items).len() ==> {
                let m = shown_items(items)[i];
                let e = #[trigger] menu_spec(items)[i];
                &&& e.id == m.id
                &&& e.enabled == m.enabled
                &&& e.separator == (m.menu_type is Separator)
                &&& e.label == text_or_empty(m.label)
                &&& e.children == menu_spec(m.submenu@)
            },
    decreases items.len(),
{
    reveal_with_fuel(Seq::<_>::filter, 1);
    if items.len() > 0 {
        let pre = items.subrange(0, items.len() - 1);
        assert(items.drop_last() == pre);
        law_menu_keeps_visible_items(pre);
        assert(shown_items(items) == if items.last().visible {
            shown_items(pre).push(items.last())
        } else {
            shown_items(pre)
        });
    }
}

} // verus!
