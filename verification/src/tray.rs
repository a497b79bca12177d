//! The StatusNotifierWatcher registry of tray items: which service a
//! registration names, how an item is filled in, how the registry is
//! updated, and which items survive a liveness check.
//!
//! The D-Bus traffic itself (property queries, owner checks) is done by the
//! caller; this module decides what is asked and what is kept.
use vstd::prelude::*;

use crate::order::{lex_leq, sort_char_seqs};
use crate::text::{char_views, chars_eq, chars_of, string_from};

verus! {

/// A registered tray icon.
#[derive(Clone, Debug)]
pub struct TrayItem {
    pub service: String,
    pub icon_name: String,
    pub title: String,
}

/// The model of a tray item.
pub struct TrayItemView {
    pub service: Seq<char>,
    pub icon_name: Seq<char>,
    pub title: Seq<char>,
}

impl View for TrayItem {
    type V = TrayItemView;

    open spec fn view(&self) -> TrayItemView {
        TrayItemView { service: self.service@, icon_name: self.icon_name@, title: self.title@ }
    }
}

pub open spec fn items_view(v: Seq<TrayItem>) -> Seq<TrayItemView> {
    v.map_values(|i: TrayItem| i@)
}

proof fn lemma_items_view_push(s: Seq<TrayItem>, x: TrayItem)
    ensures
        items_view(s.push(x)) == items_view(s).push(x@),
{
    assert(items_view(s.push(x)) =~= items_view(s).push(x@));
}

/// The services of a sequence of items, in order.
pub open spec fn services_of(v: Seq<TrayItemView>) -> Seq<Seq<char>> {
    v.map_values(|i: TrayItemView| i.service)
}

/// No two items share a service.
pub open spec fn distinct_services(v: Seq<TrayItemView>) -> bool {
    forall|i: int, j: int|
        0 <= i < v.len() && 0 <= j < v.len() && i != j ==> #[trigger] v[i].service
            != #[trigger] v[j].service
}

/// `v` without the items of service `svc`, the others in their order.
pub open spec fn without_service(v: Seq<TrayItemView>, svc: Seq<char>) -> Seq<TrayItemView>
    decreases v.len(),
{
    if v.len() == 0 {
        v
    } else if v.last().service == svc {
        without_service(v.drop_last(), svc)
    } else {
        without_service(v.drop_last(), svc).push(v.last())
    }
}

/// A character allowed in the elements of a bus name: ASCII letters and
/// digits, `_` and `-`.
pub open spec fn name_char(c: char) -> bool {
    ('a' <= c && c <= 'z') || ('A' <= c && c <= 'Z') || ('0' <= c && c <= '9') || c == '_' || c
        == '-'
}

/// A unique connection name: at most 255 characters, and either the bus's
/// own name `org.freedesktop.DBus`, or `:` followed by name characters and
/// dots, at least one dot, never two dots in a row.
pub open spec fn unique_name_ok(s: Seq<char>) -> bool {
    &&& s.len() <= 255
    &&& (s == "org.freedesktop.DBus"@ || {
        &&& s.len() > 0
        &&& s[0] == ':'
        &&& forall|i: int| 1 <= i < s.len() ==> s[i] == '.' || name_char(#[trigger] s[i])
        &&& forall|i: int| 1 <= i < s.len() && #[trigger] s[i] == '.' ==> s[i - 1] != '.'
        &&& exists|i: int| 1 <= i < s.len() && #[trigger] s[i] == '.'
    })
}

/// A well-known name: 3 to 255 characters, name characters and dots, at
/// least one dot; no element is empty (no leading dot, no two dots in a
/// row) and no element begins with a digit.
pub open spec fn well_known_name_ok(s: Seq<char>) -> bool {
    &&& 3 <= s.len() <= 255
    &&& forall|i: int| 0 <= i < s.len() ==> s[i] == '.' || name_char(#[trigger] s[i])
    &&& forall|i: int| 0 <= i < s.len() && #[trigger] s[i] == '.' ==> i > 0 && s[i - 1] != '.'
    &&& forall|i: int|
        0 <= i < s.len() && '0' <= #[trigger] s[i] && s[i] <= '9' ==> i > 0 && s[i - 1] != '.'
    &&& exists|i: int| 0 <= i < s.len() && #[trigger] s[i] == '.'
}

/// A valid D-Bus bus name: a unique or a well-known name.
pub open spec fn bus_name_valid(s: Seq<char>) -> bool {
    unique_name_ok(s) || well_known_name_ok(s)
}

/// `zbus::names::BusName::try_from`: whether the name is accepted. The
/// crate tries the unique-name rules, then the well-known-name rules
/// (`ensure_correct_unique_name`, `ensure_correct_well_known_name` in
/// zbus_names); both are written out in `bus_name_valid`. Their length
/// limits count bytes; an accepted name is ASCII, so bytes and characters
/// agree on every name either check accepts.
#[verifier::external_body]
fn is_valid_bus_name(name: &str) -> (b: bool)
    ensures
        b == bus_name_valid(name@),
{
    zbus::names::BusName::try_from(name).is_ok()
}

/// A name beginning with `/` (an object path) is no bus name.
pub proof fn lemma_object_path_not_bus_name(s: Seq<char>)
    requires
        s.len() > 0,
        s[0] == '/',
    ensures
        !bus_name_valid(s),
{
    reveal_strlit("org.freedesktop.DBus");
    if s == "org.freedesktop.DBus"@ {
        assert(s[0] == 'o');
    }
    if well_known_name_ok(s) {
        assert(s[0] == '.' || name_char(s[0]));
    }
}

/// The service that a registration names: some applications register
/// with an object path (beginning with `/`), and for them the sender's
/// connection name stands in.
pub open spec fn target_service(service: Seq<char>, sender: Seq<char>) -> Seq<char> {
    if service.len() > 0 && service[0] == '/' {
        sender
    } else {
        service
    }
}

/// The icon name kept for an item: the queried one, or `image-missing`
/// where the query failed or gave an empty name.
pub open spec fn icon_or_default(icon: Option<Seq<char>>) -> Seq<char> {
    match icon {
        Some(i) => if i.len() > 0 {
            i
        } else {
            "image-missing"@
        },
        None => "image-missing"@,
    }
}

pub open spec fn opt_string_view(o: Option<String>) -> Option<Seq<char>> {
    match o {
        Some(s) => Some(s@),
        None => None,
    }
}

/// A copy of an item.
fn copy_item(i: &TrayItem) -> (r: TrayItem)
    ensures
        r@ == i@,
{
    TrayItem { service: i.service.clone(), icon_name: i.icon_name.clone(), title: i.title.clone() }
}

/// The registered tray items, in order of registration.
pub struct TrayRegistry {
    items: Vec<TrayItem>,
}

/// An item fit for the registry: its service is a valid bus name and its
/// icon name is not empty.
pub open spec fn item_ok(i: TrayItemView) -> bool {
    bus_name_valid(i.service) && i.icon_name.len() > 0
}

/// What the registry always holds: items of distinct services, each fit.
pub open spec fn registry_wf(v: Seq<TrayItemView>) -> bool {
    &&& distinct_services(v)
    &&& forall|k: int| 0 <= k < v.len() ==> item_ok(#[trigger] v[k])
}

impl TrayRegistry {
    #[verifier::type_invariant]
    spec fn inv(self) -> bool {
        registry_wf(items_view(self.items@))
    }

    /// The items, in order of registration.
    pub closed spec fn view(&self) -> Seq<TrayItemView> {
        items_view(self.items@)
    }

    /// An empty registry.
    pub fn new() -> (r: Self)
        ensures
            r.view() == Seq::<TrayItemView>::empty(),
            registry_wf(r.view()),
    {
        let r = TrayRegistry { items: Vec::new() };
        assert(items_view(r.items@) =~= Seq::<TrayItemView>::empty());
        r
    }

    /// Adds `item`, replacing any item of the same service: the others stay
    /// in their order and the new item comes last.
    pub fn upsert(&mut self, item: TrayItem)
        requires
            item_ok(item@),
        ensures
            final(self).view() == without_service(old(self).view(), item@.service).push(item@),
            registry_wf(final(self).view()),
    {
        proof {
            use_type_invariant(&*self);
        }
        let sv = chars_of(item.service.as_str());
        let mut kept: Vec<TrayItem> = Vec::new();
        let mut i: usize = 0;
        let ghost old_v = items_view(self.items@);
        while i < self.items.len()
            invariant
                i <= self.items@.len(),
                old_v == items_view(self.items@),
                distinct_services(old_v),
                forall|m: int| 0 <= m < old_v.len() ==> item_ok(#[trigger] old_v[m]),
                item_ok(item@),
                sv@ == item@.service,
                items_view(kept@) == without_service(old_v.take(i as int), item@.service),
                forall|k: int|
                    0 <= k < kept@.len() ==> exists|m: int|
                        0 <= m < i && (#[trigger] kept@[k])@ == old_v[m],
                forall|k: int| 0 <= k < kept@.len() ==> (#[trigger] kept@[k])@.service != sv@,
                distinct_services(items_view(kept@)),
            decreases self.items@.len() - i,
        {
            assert(old_v.take(i + 1).drop_last() =~= old_v.take(i as int));
            let cur = &self.items[i];
            let cv = chars_of(cur.service.as_str());
            if !crate::text::chars_eq(&cv, &sv) {
                let c = copy_item(cur);
                proof {
                    assert forall|k: int| 0 <= k < kept@.len() implies (#[trigger] kept@[k])@.service
                        != c@.service by {
                        let m = choose|m: int| 0 <= m < i && kept@[k]@ == old_v[m];
                        assert(old_v[m].service != old_v[i as int].service);
                    }
                }
                let ghost prev = kept@;
                kept.push(c);
                proof {
                    assert(kept@ == prev.push(c));
                    lemma_items_view_push(prev, c);
                    assert(kept@.drop_last() =~= prev);
                    assert forall|k: int|
                        0 <= k < kept@.len() implies exists|m: int|
                        0 <= m < i + 1 && (#[trigger] kept@[k])@ == old_v[m] by {
                        if k == kept@.len() - 1 {
                            assert(kept@[k]@ == old_v[i as int]);
                        } else {
                            assert(kept@[k] == kept@.drop_last()[k]);
                        }
                    }
                    let kv = items_view(kept@);
                    assert forall|a: int, b: int|
                        0 <= a < kv.len() && 0 <= b < kv.len() && a != b implies #[trigger] kv[a].service
                        != #[trigger] kv[b].service by {
                        if a == kv.len() - 1 {
                            assert(kv[b] == kept@[b]@);
                        } else if b == kv.len() - 1 {
                            assert(kv[a] == kept@[a]@);
                        } else {
                            assert(kv[a] == items_view(kept@.drop_last())[a]);
                            assert(kv[b] == items_view(kept@.drop_last())[b]);
                        }
                    }
                }
            }
            i += 1;
        }
        assert(old_v.take(old_v.len() as int) =~= old_v);
        let ghost kept_v = items_view(kept@);
        kept.push(item);
        proof {
            assert(items_view(kept@) =~= kept_v.push(item@));
            let kv = items_view(kept@);
            assert forall|a: int, b: int|
                0 <= a < kv.len() && 0 <= b < kv.len() && a != b implies #[trigger] kv[a].service
                != #[trigger] kv[b].service by {
                if a == kv.len() - 1 {
                    assert(kv[b] == kept@[b]@);
                } else if b == kv.len() - 1 {
                    assert(kv[a] == kept@[a]@);
                } else {
                    assert(kv[a] == kept_v[a]);
                    assert(kv[b] == kept_v[b]);
                }
            }
        }
        proof {
            let kv = items_view(kept@);
            assert forall|k: int| 0 <= k < kv.len() implies item_ok(#[trigger] kv[k]) by {
                if k < kv.len() - 1 {
                    assert(kv[k] == kept@[k]@);
                    let m = choose|m: int| 0 <= m < old_v.len() && (#[trigger] kept@[k])@ == old_v[m];
                } else {
                    assert(kv[k] == item@);
                }
            }
        }
        self.items = kept;
    }

    /// Drops, after a liveness check of `snapshot` (an earlier copy of the
    /// registry), the items whose service the bus reported to have no
    /// owner. `owners` is `None` when the bus could not be asked at all;
    /// otherwise it holds, item by item of the snapshot, the answer to the
    /// owner query (`None` where the query failed). Only a definite "no
    /// owner" removes an item: items registered since the snapshot, items
    /// whose query failed, and everything when the bus could not be asked,
    /// stay.
    pub fn prune(&mut self, snapshot: &Vec<TrayItem>, owners: Option<&Vec<Option<bool>>>)
        requires
            owners matches Some(o) ==> o@.len() == snapshot@.len(),
        ensures
            final(self).view() == match owners {
                Some(o) => without_dead(old(self).view(), items_view(snapshot@), o@),
                None => old(self).view(),
            },
            registry_wf(final(self).view()),
    {
        proof {
            use_type_invariant(&*self);
        }
        let o = match owners {
            Some(o) => o,
            None => {
                return;
            },
        };
        let ghost old_v = items_view(self.items@);
        let ghost snap = items_view(snapshot@);
        let mut kept: Vec<TrayItem> = Vec::new();
        let mut i: usize = 0;
        while i < self.items.len()
            invariant
                i <= self.items@.len(),
                old_v == items_view(self.items@),
                snap == items_view(snapshot@),
                o@.len() == snapshot@.len(),
                items_view(kept@) == without_dead(old_v.take(i as int), snap, o@),
            decreases self.items@.len() - i,
        {
            assert(old_v.take(i + 1).drop_last() =~= old_v.take(i as int));
            let cur = &self.items[i];
            let cv = chars_of(cur.service.as_str());
            if !service_dead(&cv, snapshot, o) {
                let c = copy_item(cur);
                let ghost prev = kept@;
                kept.push(c);
                proof {
                    lemma_items_view_push(prev, c);
                }
            }
            i += 1;
        }
        assert(old_v.take(old_v.len() as int) =~= old_v);
        proof {
            lemma_without_dead(old_v, snap, o@);
        }
        self.items = kept;
    }
}

/// Whether the bus reported, in the check of `snapshot`, that service
/// `svc` has no owner.
pub open spec fn is_dead(
    svc: Seq<char>,
    snapshot: Seq<TrayItemView>,
    owners: Seq<Option<bool>>,
) -> bool {
    exists|k: int|
        0 <= k < snapshot.len() && k < owners.len() && #[trigger] snapshot[k].service == svc
            && owners[k] == Some(false)
}

/// `v` without the items whose service was reported without owner, the
/// others in their order.
pub open spec fn without_dead(
    v: Seq<TrayItemView>,
    snapshot: Seq<TrayItemView>,
    owners: Seq<Option<bool>>,
) -> Seq<TrayItemView>
    decreases v.len(),
{
    if v.len() == 0 {
        v
    } else if is_dead(v.last().service, snapshot, owners) {
        without_dead(v.drop_last(), snapshot, owners)
    } else {
        without_dead(v.drop_last(), snapshot, owners).push(v.last())
    }
}

/// Whether the answers for `snapshot` report `svc` without owner.
fn service_dead(svc: &Vec<char>, snapshot: &Vec<TrayItem>, owners: &Vec<Option<bool>>) -> (b: bool)
    requires
        owners@.len() == snapshot@.len(),
    ensures
        b == is_dead(svc@, items_view(snapshot@), owners@),
{
    let ghost snap = items_view(snapshot@);
    let mut k: usize = 0;
    while k < snapshot.len()
        invariant
            k <= snapshot@.len(),
            owners@.len() == snapshot@.len(),
            snap == items_view(snapshot@),
            forall|j: int|
                0 <= j < k ==> !(#[trigger] snap[j].service == svc@ && owners@[j] == Some(false)),
        decreases snapshot@.len() - k,
    {
        let answer = owners[k];
        if answer == Some(false) {
            let other = chars_of(snapshot[k].service.as_str());
            if chars_eq(&other, svc) {
                assert(snap[k as int].service == svc@);
                return true;
            }
        }
        k += 1;
    }
    false
}

/// What pruning keeps: only items of `v`, none reported without owner,
/// every item of `v` not reported without owner, and a fit registry stays
/// fit.
proof fn lemma_without_dead(
    v: Seq<TrayItemView>,
    snapshot: Seq<TrayItemView>,
    owners: Seq<Option<bool>>,
)
    ensures
        forall|k: int|
            0 <= k < without_dead(v, snapshot, owners).len() ==> v.contains(
                #[trigger] without_dead(v, snapshot, owners)[k],
            ) && !is_dead(without_dead(v, snapshot, owners)[k].service, snapshot, owners),
        forall|x: TrayItemView|
            v.contains(x) && !is_dead(x.service, snapshot, owners) ==> #[trigger] without_dead(
                v,
                snapshot,
                owners,
            ).contains(x),
        registry_wf(v) ==> registry_wf(without_dead(v, snapshot, owners)),
    decreases v.len(),
{
    if v.len() > 0 {
        let init = v.drop_last();
        lemma_without_dead(init, snapshot, owners);
        let rest = without_dead(init, snapshot, owners);
        let w = without_dead(v, snapshot, owners);
        assert forall|k: int| 0 <= k < w.len() implies v.contains(#[trigger] w[k]) && !is_dead(
            w[k].service,
            snapshot,
            owners,
        ) by {
            if k < rest.len() {
                assert(w[k] == rest[k]);
                let j = choose|j: int| 0 <= j < init.len() && init[j] == rest[k];
                assert(v[j] == init[j]);
            } else {
                assert(w[k] == v.last());
                assert(v[v.len() - 1] == v.last());
            }
        }
        assert forall|x: TrayItemView|
            v.contains(x) && !is_dead(x.service, snapshot, owners) implies #[trigger] w.contains(
            x,
        ) by {
            let j = choose|j: int| 0 <= j < v.len() && v[j] == x;
            if j < v.len() - 1 {
                assert(init[j] == x);
                assert(init.contains(x));
                assert(rest.contains(x));
                let r = choose|r: int| 0 <= r < rest.len() && rest[r] == x;
                if is_dead(v.last().service, snapshot, owners) {
                    assert(w == rest);
                } else {
                    assert(w == rest.push(v.last()));
                }
                assert(w[r] == x);
            } else {
                assert(w[w.len() - 1] == x);
            }
        }
        if registry_wf(v) {
            assert forall|a: int, b: int|
                0 <= a < init.len() && 0 <= b < init.len() && a != b implies #[trigger] init[a].service
                != #[trigger] init[b].service by {
                assert(init[a] == v[a] && init[b] == v[b]);
            }
            assert forall|k: int| 0 <= k < init.len() implies item_ok(#[trigger] init[k]) by {
                assert(init[k] == v[k]);
            }
            assert forall|k: int| 0 <= k < w.len() implies item_ok(#[trigger] w[k]) by {
                let j = choose|j: int| 0 <= j < v.len() && v[j] == w[k];
            }
            if w.len() > rest.len() {
                let last = v.last();
                assert forall|k: int| 0 <= k < rest.len() implies #[trigger] rest[k].service
                    != last.service by {
                    let m = choose|m: int| 0 <= m < init.len() && init[m] == rest[k];
                    assert(v[m] == init[m]);
                    assert(v[v.len() - 1] == last);
                }
                assert forall|a: int, b: int|
                    0 <= a < w.len() && 0 <= b < w.len() && a != b implies #[trigger] w[a].service
                    != #[trigger] w[b].service by {
                    if a < rest.len() && b < rest.len() {
                        assert(w[a] == rest[a] && w[b] == rest[b]);
                    } else if a < rest.len() {
                        assert(w[a] == rest[a]);
                    } else {
                        assert(w[b] == rest[b]);
                    }
                }
            }
        }
    }
}

/// A copy of the registered items (the list the tray widget shows).
pub fn get_tray_items(registry: &TrayRegistry) -> (r: Vec<TrayItem>)
    ensures
        items_view(r@) == registry.view(),
{
    let mut r: Vec<TrayItem> = Vec::new();
    let mut i: usize = 0;
    while i < registry.items.len()
        invariant
            i <= registry.items@.len(),
            items_view(r@) == items_view(registry.items@.take(i as int)),
        decreases registry.items@.len() - i,
    {
        let c = copy_item(&registry.items[i]);
        let ghost prev = r@;
        r.push(c);
        proof {
            lemma_items_view_push(prev, c);
            assert(registry.items@.take(i + 1) =~= registry.items@.take(i as int).push(
                registry.items@[i as int],
            ));
            lemma_items_view_push(registry.items@.take(i as int), registry.items@[i as int]);
        }
        i += 1;
    }
    assert(registry.items@.take(registry.items@.len() as int) =~= registry.items@);
    r
}

/// The item registered for `service` from the answers of the property
/// queries: the icon name queried (or `image-missing`), the title queried
/// (or empty).
pub open spec fn registered_item(
    service: Seq<char>,
    icon_name: Option<Seq<char>>,
    title: Option<Seq<char>>,
) -> TrayItemView {
    TrayItemView {
        service,
        icon_name: icon_or_default(icon_name),
        title: match title {
            Some(t) => t,
            None => Seq::<char>::empty(),
        },
    }
}

/// The tray item built from the answers of a registration's property
/// queries (`None` where a query failed).
pub fn make_tray_item(target: &str, icon_name: Option<String>, title: Option<String>) -> (r: TrayItem)
    ensures
        r@ == registered_item(target@, opt_string_view(icon_name), opt_string_view(title)),
        r@.icon_name.len() > 0,
        r@.service == target@,
        r@.icon_name == icon_or_default(opt_string_view(icon_name)),
        r@.title == match opt_string_view(title) {
            Some(t) => t,
            None => Seq::<char>::empty(),
        },
{
    proof {
        reveal_strlit("image-missing");
    }
    let icon = match icon_name {
        Some(i) => {
            let v = chars_of(i.as_str());
            if v.len() > 0 {
                i
            } else {
                string_from("image-missing")
            }
        },
        None => string_from("image-missing"),
    };
    let title = match title {
        Some(t) => t,
        None => String::new(),
    };
    TrayItem { service: string_from(target), icon_name: icon, title }
}

/// The D-Bus object `org.kde.StatusNotifierWatcher`.
pub struct StatusNotifierWatcher;

impl StatusNotifierWatcher {
    /// Decides a `RegisterStatusNotifierItem` call: the service whose
    /// properties are to be queried, or `None` when the call is ignored
    /// (the named service is empty, or is no valid bus name).
    pub fn register_status_notifier_item(&self, service: &str, sender: &str) -> (r: Option<String>)
        ensures
            r matches Some(t) ==> t@ == target_service(service@, sender@) && t@.len() > 0
                && bus_name_valid(t@),
            r is None ==> target_service(service@, sender@).len() == 0 || !bus_name_valid(
                target_service(service@, sender@),
            ),
    {
        let sv = chars_of(service);
        let target = if sv.len() > 0 && sv[0] == '/' {
            string_from(sender)
        } else {
            string_from(service)
        };
        let tv = chars_of(target.as_str());
        if tv.len() == 0 {
            return None;
        }
        if !is_valid_bus_name(target.as_str()) {
            return None;
        }
        Some(target)
    }

    /// Completes a registration of service `target` with the answers of the
    /// property queries (`None` where a query failed): the item built from
    /// them replaces any earlier item of the same service and comes last.
    /// A target that is no valid bus name is not registered; the result
    /// tells whether the item was registered.
    pub fn finish_registration(
        &self,
        registry: &mut TrayRegistry,
        target: &str,
        icon_name: Option<String>,
        title: Option<String>,
    ) -> (r: bool)
        ensures
            r == bus_name_valid(target@),
            r ==> final(registry).view() == without_service(old(registry).view(), target@).push(
                registered_item(target@, opt_string_view(icon_name), opt_string_view(title)),
            ),
            !r ==> final(registry).view() == old(registry).view(),
            registry_wf(final(registry).view()),
    {
        proof {
            use_type_invariant(&*registry);
            reveal_strlit("image-missing");
        }
        if !is_valid_bus_name(target) {
            return false;
        }
        let item = make_tray_item(target, icon_name, title);
        registry.upsert(item);
        true
    }

    /// A `RegisterStatusNotifierHost` call changes nothing.
    pub fn register_status_notifier_host(&self, service: &str) {
    }

    /// The `RegisteredStatusNotifierItems` property: the services of the
    /// registered items, in order.
    pub fn registered_status_notifier_items(&self, registry: &TrayRegistry) -> (r: Vec<String>)
        ensures
            r@.map_values(|s: String| s@) == services_of(registry.view()),
    {
        let items = get_tray_items(registry);
        let mut r: Vec<String> = Vec::new();
        let mut i: usize = 0;
        while i < items.len()
            invariant
                i <= items@.len(),
                items_view(items@) == registry.view(),
                r@.map_values(|s: String| s@) == services_of(items_view(items@.take(i as int))),
            decreases items@.len() - i,
        {
            let ghost prev = r@;
            let sc = items[i].service.clone();
            r.push(sc);
            proof {
                assert(r@.map_values(|s: String| s@) =~= prev.map_values(|s: String| s@).push(sc@));
                assert(items@.take(i + 1) =~= items@.take(i as int).push(items@[i as int]));
                lemma_items_view_push(items@.take(i as int), items@[i as int]);
                assert(services_of(items_view(items@.take(i + 1))) =~= services_of(
                    items_view(items@.take(i as int)),
                ).push(items@[i as int]@.service));
            }
            i += 1;
        }
        assert(items@.take(items@.len() as int) =~= items@);
        r
    }

    /// The `IsStatusNotifierHostRegistered` property: always true, the
    /// panel itself being the host.
    pub fn is_status_notifier_host_registered(&self) -> (r: bool)
        ensures
            r,
    {
        true
    }

    /// The `ProtocolVersion` property.
    pub fn protocol_version(&self) -> (r: i32)
        ensures
            r == 0,
    {
        0
    }
}

/// Whether no two of `items` share a service.
pub fn has_distinct_services(items: &Vec<TrayItem>) -> (b: bool)
    ensures
        b == distinct_services(items_view(items@)),
{
    let n = items.len();
    let mut i: usize = 0;
    while i < n
        invariant
            n == items@.len(),
            i <= n,
            forall|a: int, b: int|
                0 <= a < i && 0 <= b < n && a != b ==> items@[a]@.service != items@[b]@.service,
        decreases n - i,
    {
        let si = chars_of(items[i].service.as_str());
        let mut j: usize = 0;
        while j < n
            invariant
                n == items@.len(),
                i < n,
                j <= n,
                si@ == items@[i as int]@.service,
                forall|a: int, b: int|
                    0 <= a < i && 0 <= b < n && a != b ==> items@[a]@.service != items@[b]@.service,
                forall|b: int| 0 <= b < j && b != i ==> items@[i as int]@.service != items@[b]@.service,
            decreases n - j,
        {
            if j != i {
                let sj = chars_of(items[j].service.as_str());
                if crate::text::chars_eq(&si, &sj) {
                    assert(items_view(items@)[i as int].service == items_view(items@)[j as int].service);
                    return false;
                }
            }
            j += 1;
        }
        i += 1;
    }
    true
}


/// The tray shown must be rebuilt when the services registered differ
/// from those displayed, order aside.
pub fn tray_needs_rebuild(current: &Vec<TrayItem>, displayed: &Vec<String>) -> (b: bool)
    ensures
        b == (services_of(items_view(current@)).sort_by(lex_leq()) != displayed@.map_values(
            |s: String| s@,
        ).sort_by(lex_leq())),
{
    let mut cur: Vec<Vec<char>> = Vec::new();
    let mut i: usize = 0;
    while i < current.len()
        invariant
            i <= current@.len(),
            char_views(cur@) == services_of(items_view(current@.take(i as int))),
        decreases current@.len() - i,
    {
        let ghost before = cur@;
        cur.push(chars_of(current[i].service.as_str()));
        proof {
            assert(current@.take(i + 1) =~= current@.take(i as int).push(current@[i as int]));
            lemma_items_view_push(current@.take(i as int), current@[i as int]);
            assert(char_views(cur@) =~= char_views(before).push(current@[i as int].service@));
        }
        i += 1;
    }
    assert(current@.take(current@.len() as int) =~= current@);
    let mut shown: Vec<Vec<char>> = Vec::new();
    let mut j: usize = 0;
    while j < displayed.len()
        invariant
            j <= displayed@.len(),
            char_views(shown@) == displayed@.map_values(|s: String| s@).take(j as int),
        decreases displayed@.len() - j,
    {
        let ghost before = shown@;
        shown.push(chars_of(displayed[j].as_str()));
        assert(char_views(shown@) =~= char_views(before).push(displayed@[j as int]@));
        assert(displayed@.map_values(|s: String| s@).take(j + 1) =~= displayed@.map_values(
            |s: String| s@,
        ).take(j as int).push(displayed@[j as int]@));
        j += 1;
    }
    assert(displayed@.map_values(|s: String| s@).take(displayed@.len() as int) =~= displayed@.map_values(
        |s: String| s@,
    ));
    let a = sort_char_seqs(&cur);
    let b = sort_char_seqs(&shown);
    let same = same_seqs(&a, &b);
    !same
}

fn same_seqs(a: &Vec<Vec<char>>, b: &Vec<Vec<char>>) -> (r: bool)
    ensures
        r == (char_views(a@) == char_views(b@)),
{
    if a.len() != b.len() {
        assert(char_views(a@).len() != char_views(b@).len());
        return false;
    }
    let mut i: usize = 0;
    while i < a.len()
        invariant
            i <= a@.len(),
            a@.len() == b@.len(),
            forall|k: int| 0 <= k < i ==> a@[k]@ == b@[k]@,
        decreases a@.len() - i,
    {
        if !chars_eq(&a[i], &b[i]) {
            assert(char_views(a@)[i as int] != char_views(b@)[i as int]);
            return false;
        }
        i += 1;
    }
    assert(char_views(a@) =~= char_views(b@));
    true
}


proof fn lemma_without_service_absent(v: Seq<TrayItemView>, svc: Seq<char>)
    ensures
        forall|i: int|
            0 <= i < without_service(v, svc).len() ==> (#[trigger] without_service(v, svc)[i]).service
                != svc,
        forall|i: int|
            0 <= i < without_service(v, svc).len() ==> v.contains(
                #[trigger] without_service(v, svc)[i],
            ),
    decreases v.len(),
{
    if v.len() > 0 {
        lemma_without_service_absent(v.drop_last(), svc);
        let w = without_service(v, svc);
        let wp = without_service(v.drop_last(), svc);
        assert forall|i: int| 0 <= i < w.len() implies v.contains(#[trigger] w[i]) by {
            if i < wp.len() {
                assert(w[i] == wp[i]);
                let j = choose|j: int| 0 <= j < v.drop_last().len() && v.drop_last()[j] == wp[i];
                assert(v[j] == wp[i]);
            } else {
                assert(w[i] == v.last());
                assert(v[v.len() - 1] == v.last());
            }
        }
        assert forall|i: int| 0 <= i < w.len() implies (#[trigger] w[i]).service != svc by {
            if i < wp.len() {
                assert(w[i] == wp[i]);
            }
        }
    }
}

/// A registration lists the registered service exactly once, as the last
/// item, and keeps only items that were registered before, each of
/// another service.
pub proof fn law_registration_listed_once(v: Seq<TrayItemView>, item: TrayItemView)
    ensures
        ({
            let after = without_service(v, item.service).push(item);
            &&& after.last() == item
            &&& forall|i: int| 0 <= i < after.len() - 1 ==> (#[trigger] after[i]).service
                != item.service && v.contains(after[i])
        }),
{
    lemma_without_service_absent(v, item.service);
    let w = without_service(v, item.service);
    let after = w.push(item);
    assert forall|i: int| 0 <= i < after.len() - 1 implies (#[trigger] after[i]).service
        != item.service && v.contains(after[i]) by {
        assert(after[i] == w[i]);
    }
}

/// A fit registry stays fit when an item is registered: services stay
/// distinct, every service a valid bus name, every icon name non-empty (an
/// item built from the queries always has one).
pub proof fn law_registration_keeps_registry_fit(
    v: Seq<TrayItemView>,
    service: Seq<char>,
    icon_name: Option<Seq<char>>,
    title: Option<Seq<char>>,
)
    requires
        registry_wf(v),
        bus_name_valid(service),
    ensures
        registered_item(service, icon_name, title).icon_name.len() > 0,
        registry_wf(without_service(v, service).push(registered_item(service, icon_name, title))),
{
    reveal_strlit("image-missing");
    let item = registered_item(service, icon_name, title);
    lemma_without_service_absent(v, service);
    let w = without_service(v, service);
    let after = w.push(item);
    assert forall|k: int| 0 <= k < w.len() implies item_ok(#[trigger] w[k]) by {
        let j = choose|j: int| 0 <= j < v.len() && v[j] == w[k];
    }
    assert forall|k: int| 0 <= k < after.len() implies item_ok(#[trigger] after[k]) by {
        if k < w.len() {
            assert(after[k] == w[k]);
        }
    }
    lemma_without_service_distinct(v, service);
    assert forall|a: int, b: int|
        0 <= a < after.len() && 0 <= b < after.len() && a != b implies #[trigger] after[a].service
        != #[trigger] after[b].service by {
        if a < w.len() && b < w.len() {
            assert(after[a] == w[a] && after[b] == w[b]);
        } else if a < w.len() {
            assert(after[a] == w[a]);
        } else {
            assert(after[b] == w[b]);
        }
    }
}

proof fn lemma_without_service_distinct(v: Seq<TrayItemView>, svc: Seq<char>)
    requires
        distinct_services(v),
    ensures
        distinct_services(without_service(v, svc)),
    decreases v.len(),
{
    if v.len() > 0 {
        let init = v.drop_last();
        assert forall|a: int, b: int|
            0 <= a < init.len() && 0 <= b < init.len() && a != b implies #[trigger] init[a].service
            != #[trigger] init[b].service by {
            assert(init[a] == v[a] && init[b] == v[b]);
        }
        lemma_without_service_distinct(init, svc);
        lemma_without_service_absent(init, svc);
        let rest = without_service(init, svc);
        let w = without_service(v, svc);
        if v.last().service != svc {
            assert forall|a: int, b: int|
                0 <= a < w.len() && 0 <= b < w.len() && a != b implies #[trigger] w[a].service
                != #[trigger] w[b].service by {
                if a < rest.len() && b < rest.len() {
                    assert(w[a] == rest[a] && w[b] == rest[b]);
                } else {
                    let k = if a < rest.len() { a } else { b };
                    assert(w[k] == rest[k]);
                    let m = choose|m: int| 0 <= m < init.len() && init[m] == rest[k];
                    assert(v[m] == init[m]);
                    assert(v[v.len() - 1] == v.last());
                }
            }
        }
    }
}

/// No item of a fit registry has an object path (a name beginning with
/// `/`) as its service: registrations by object path are filed under the
/// sender's connection name.
pub proof fn law_no_object_path_registered(v: Seq<TrayItemView>)
    requires
        registry_wf(v),
    ensures
        forall|k: int|
            0 <= k < v.len() ==> !((#[trigger] v[k]).service.len() > 0 && v[k].service[0] == '/'),
{
    assert forall|k: int| 0 <= k < v.len() implies !((#[trigger] v[k]).service.len() > 0
        && v[k].service[0] == '/') by {
        assert(item_ok(v[k]));
        if v[k].service.len() > 0 && v[k].service[0] == '/' {
            lemma_object_path_not_bus_name(v[k].service);
        }
    }
}

/// A liveness check removes only disconnected items: an item that was
/// registered when the check ended (also one registered after its
/// snapshot) stays unless the bus reported its service without owner;
/// every item kept was registered before; no kept item was reported
/// without owner; a fit registry stays fit.
pub proof fn law_prune_removes_only_disconnected(
    v: Seq<TrayItemView>,
    snapshot: Seq<TrayItemView>,
    owners: Seq<Option<bool>>,
    x: TrayItemView,
)
    ensures
        v.contains(x) && !is_dead(x.service, snapshot, owners) ==> without_dead(
            v,
            snapshot,
            owners,
        ).contains(x),
        forall|k: int|
            0 <= k < without_dead(v, snapshot, owners).len() ==> v.contains(
                #[trigger] without_dead(v, snapshot, owners)[k],
            ) && !is_dead(without_dead(v, snapshot, owners)[k].service, snapshot, owners),
        registry_wf(v) ==> registry_wf(without_dead(v, snapshot, owners)),
{
    lemma_without_dead(v, snapshot, owners);
}

} // verus!
