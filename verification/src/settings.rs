//! The application settings document.
//!
//! All application settings live in one JSON object, stored as a single row.
//! Each kind of setting owns some member names of that object; saving one kind
//! rewrites only its own members and keeps every other member as it was.

use vstd::prelude::*;

use crate::json::{
    distinct_names, json_text_of, json_value_of, members_map, plain_member, plain_object,
    text_of_option, texts_of, views_of, JsonValue,
};

verus! {

/// Desktop shell preferences.
#[derive(Debug, Clone, PartialEq, Eq, Structural)]
pub struct DesktopSettings {
    pub show_tray_icon: bool,
}

/// The desktop preferences of a fresh installation: the tray icon is shown.
pub open spec fn initial_desktop_settings() -> DesktopSettings {
    DesktopSettings { show_tray_icon: true }
}

impl Default for DesktopSettings {
    fn default() -> (r: DesktopSettings)
        ensures
            r == initial_desktop_settings(),
    {
        DesktopSettings { show_tray_icon: true }
    }
}

/// The member holding the hash of the application password.
pub open spec fn password_hash_name() -> Seq<char> {
    "password_hash"@
}

/// The member holding whether the tray icon is shown.
pub open spec fn show_tray_icon_name() -> Seq<char> {
    "show_tray_icon"@
}

/// A member that older releases wrote; it no longer means anything.
pub open spec fn run_in_background_name() -> Seq<char> {
    "run_in_background"@
}

/// The member holding the ids of the pinned tree nodes.
pub open spec fn pinned_tree_node_ids_name() -> Seq<char> {
    "pinned_tree_node_ids"@
}

/// The password hash that a settings object holds, if its member is a string.
pub open spec fn password_hash_of(m: Map<Seq<char>, JsonValue>) -> Option<Seq<char>> {
    if m.contains_key(password_hash_name()) {
        m[password_hash_name()].text()
    } else {
        None
    }
}

/// The desktop preferences that a settings object holds; a missing or
/// non-boolean member reads as the initial preference.
pub open spec fn desktop_settings_of(m: Map<Seq<char>, JsonValue>) -> DesktopSettings {
    let stored = if m.contains_key(show_tray_icon_name()) {
        m[show_tray_icon_name()].flag()
    } else {
        None
    };
    DesktopSettings {
        show_tray_icon: match stored {
            Some(b) => b,
            None => initial_desktop_settings().show_tray_icon,
        },
    }
}

/// The pinned tree node ids that a settings object holds: the string items of
/// its array member, or none when the member is missing or not an array.
pub open spec fn pinned_ids_of(m: Map<Seq<char>, JsonValue>) -> Seq<Seq<char>> {
    if m.contains_key(pinned_tree_node_ids_name()) {
        match m[pinned_tree_node_ids_name()] {
            JsonValue::Array(items) => texts_of(items@),
            _ => Seq::empty(),
        }
    } else {
        Seq::empty()
    }
}

/// `after` is `before` with the password hash member set to the string `hash`.
pub open spec fn password_hash_saved(
    before: Map<Seq<char>, JsonValue>,
    hash: Seq<char>,
    after: Map<Seq<char>, JsonValue>,
) -> bool {
    &&& after == before.insert(password_hash_name(), after[password_hash_name()])
    &&& after[password_hash_name()].text() == Some(hash)
}

/// `before` with the desktop preferences written and the legacy member dropped.
pub open spec fn with_desktop_settings(
    before: Map<Seq<char>, JsonValue>,
    desktop: DesktopSettings,
) -> Map<Seq<char>, JsonValue> {
    before.remove(run_in_background_name()).insert(
        show_tray_icon_name(),
        JsonValue::Bool(desktop.show_tray_icon),
    )
}

/// `after` is `before` with the pinned ids member set to an array holding
/// exactly the strings `ids`, in order.
pub open spec fn pinned_ids_saved(
    before: Map<Seq<char>, JsonValue>,
    ids: Seq<Seq<char>>,
    after: Map<Seq<char>, JsonValue>,
) -> bool {
    &&& after == before.insert(pinned_tree_node_ids_name(), after[pinned_tree_node_ids_name()])
    &&& after[pinned_tree_node_ids_name()] matches JsonValue::Array(items) && items@.len()
        == ids.len() && forall|i: int| 0 <= i < ids.len() ==> #[trigger] items@[i].text() == Some(
        ids[i],
    )
}

proof fn lemma_members_map_dom(members: Seq<(String, JsonValue)>, name: Seq<char>)
    ensures
        members_map(members).contains_key(name) <==> exists|i: int|
            0 <= i < members.len() && #[trigger] members[i].0@ == name,
    decreases members.len(),
{
    if members.len() > 0 {
        let rest = members.drop_last();
        lemma_members_map_dom(rest, name);
        if members_map(members).contains_key(name) {
            if members.last().0@ == name {
                assert(members[members.len() - 1].0@ == name);
            } else {
                let i = choose|i: int| 0 <= i < rest.len() && #[trigger] rest[i].0@ == name;
                assert(members[i] == rest[i]);
            }
        }
        if exists|i: int| 0 <= i < members.len() && #[trigger] members[i].0@ == name {
            let i = choose|i: int| 0 <= i < members.len() && #[trigger] members[i].0@ == name;
            if i < members.len() - 1 {
                assert(rest[i] == members[i]);
            }
        }
    }
}

proof fn lemma_members_map_value(members: Seq<(String, JsonValue)>, i: int)
    requires
        distinct_names(members),
        0 <= i < members.len(),
    ensures
        members_map(members).contains_key(members[i].0@),
        members_map(members)[members[i].0@] == members[i].1,
    decreases members.len(),
{
    if i < members.len() - 1 {
        let rest = members.drop_last();
        assert(members[i] == rest[i]);
        assert(distinct_names(rest)) by {
            assert forall|a: int, b: int|
                #![trigger rest[a], rest[b]]
                0 <= a < rest.len() && 0 <= b < rest.len() && a != b implies rest[a].0@
                != rest[b].0@ by {
                assert(rest[a] == members[a] && rest[b] == members[b]);
            }
        }
        lemma_members_map_value(rest, i);
        assert(members[i].0@ != members[members.len() - 1].0@);
    }
}

proof fn lemma_members_map_update(members: Seq<(String, JsonValue)>, j: int, member: (String, JsonValue))
    requires
        distinct_names(members),
        0 <= j < members.len(),
        member.0@ == members[j].0@,
    ensures
        distinct_names(members.update(j, member)),
        members_map(members.update(j, member)) == members_map(members).insert(member.0@, member.1),
{
    let updated = members.update(j, member);
    assert forall|a: int, b: int|
        #![trigger updated[a], updated[b]]
        0 <= a < updated.len() && 0 <= b < updated.len() && a != b implies updated[a].0@
        != updated[b].0@ by {
        assert(members[a].0@ == updated[a].0@ && members[b].0@ == updated[b].0@);
    }
    let m1 = members_map(updated);
    let m2 = members_map(members).insert(member.0@, member.1);
    assert forall|name: Seq<char>| #[trigger] m1.contains_key(name) <==> m2.contains_key(name) by {
        lemma_members_map_dom(updated, name);
        lemma_members_map_dom(members, name);
        if name == member.0@ {
            assert(updated[j].0@ == name);
        } else if m2.contains_key(name) {
            let i = choose|i: int| 0 <= i < members.len() && #[trigger] members[i].0@ == name;
            assert(updated[i].0@ == name);
        }
        if m1.contains_key(name) {
            let i = choose|i: int| 0 <= i < updated.len() && #[trigger] updated[i].0@ == name;
            assert(members[i].0@ == name);
        }
    }
    assert forall|name: Seq<char>| #[trigger] m1.contains_key(name) implies m1[name] == m2[name] by {
        lemma_members_map_dom(updated, name);
        let i = choose|i: int| 0 <= i < updated.len() && #[trigger] updated[i].0@ == name;
        lemma_members_map_value(updated, i);
        if i != j {
            assert(updated[i] == members[i]);
            lemma_members_map_value(members, i);
        }
    }
    assert(m1 =~= m2);
}

proof fn lemma_members_map_push(members: Seq<(String, JsonValue)>, member: (String, JsonValue))
    requires
        distinct_names(members),
        forall|i: int| 0 <= i < members.len() ==> #[trigger] members[i].0@ != member.0@,
    ensures
        distinct_names(members.push(member)),
        members_map(members.push(member)) == members_map(members).insert(member.0@, member.1),
{
    let pushed = members.push(member);
    assert(pushed.drop_last() =~= members);
    assert forall|a: int, b: int|
        #![trigger pushed[a], pushed[b]]
        0 <= a < pushed.len() && 0 <= b < pushed.len() && a != b implies pushed[a].0@
        != pushed[b].0@ by {
        if a < members.len() {
            assert(pushed[a] == members[a]);
        }
        if b < members.len() {
            assert(pushed[b] == members[b]);
        }
    }
}

proof fn lemma_members_map_remove(members: Seq<(String, JsonValue)>, j: int)
    requires
        distinct_names(members),
        0 <= j < members.len(),
    ensures
        distinct_names(members.remove(j)),
        members_map(members.remove(j)) == members_map(members).remove(members[j].0@),
{
    let removed = members.remove(j);
    let gone = members[j].0@;
    assert forall|a: int, b: int|
        #![trigger removed[a], removed[b]]
        0 <= a < removed.len() && 0 <= b < removed.len() && a != b implies removed[a].0@
        != removed[b].0@ by {
        let a0 = if a < j { a } else { a + 1 };
        let b0 = if b < j { b } else { b + 1 };
        assert(removed[a] == members[a0] && removed[b] == members[b0]);
    }
    let m1 = members_map(removed);
    let m2 = members_map(members).remove(gone);
    assert forall|name: Seq<char>| #[trigger] m1.contains_key(name) <==> m2.contains_key(name) by {
        lemma_members_map_dom(removed, name);
        lemma_members_map_dom(members, name);
        if m2.contains_key(name) {
            let i = choose|i: int| 0 <= i < members.len() && #[trigger] members[i].0@ == name;
            assert(i != j);
            let k = if i < j { i } else { i - 1 };
            assert(removed[k] == members[i]);
        }
        if m1.contains_key(name) {
            let k = choose|k: int| 0 <= k < removed.len() && #[trigger] removed[k].0@ == name;
            let i = if k < j { k } else { k + 1 };
            assert(removed[k] == members[i]);
            assert(i != j);
        }
    }
    assert forall|name: Seq<char>| #[trigger] m1.contains_key(name) implies m1[name] == m2[name] by {
        lemma_members_map_dom(removed, name);
        let k = choose|k: int| 0 <= k < removed.len() && #[trigger] removed[k].0@ == name;
        let i = if k < j { k } else { k + 1 };
        assert(removed[k] == members[i]);
        lemma_members_map_value(removed, k);
        lemma_members_map_value(members, i);
    }
    assert(m1 =~= m2);
}

proof fn lemma_member_names_differ()
    ensures
        password_hash_name() != show_tray_icon_name(),
        password_hash_name() != run_in_background_name(),
        password_hash_name() != pinned_tree_node_ids_name(),
        show_tray_icon_name() != run_in_background_name(),
        show_tray_icon_name() != pinned_tree_node_ids_name(),
        run_in_background_name() != pinned_tree_node_ids_name(),
{
    reveal_strlit("password_hash");
    reveal_strlit("show_tray_icon");
    reveal_strlit("run_in_background");
    reveal_strlit("pinned_tree_node_ids");
    assert(password_hash_name().len() == 13);
    assert(show_tray_icon_name().len() == 14);
    assert(run_in_background_name().len() == 17);
    assert(pinned_tree_node_ids_name().len() == 20);
}

proof fn lemma_texts_of_strings(items: Seq<JsonValue>, texts: Seq<Seq<char>>)
    requires
        items.len() == texts.len(),
        forall|i: int| 0 <= i < texts.len() ==> #[trigger] items[i].text() == Some(texts[i]),
    ensures
        texts_of(items) == texts,
    decreases items.len(),
{
    if items.len() > 0 {
        let n = items.len() - 1;
        assert forall|i: int| 0 <= i < n implies #[trigger] items.drop_last()[i].text() == Some(
            texts.drop_last()[i],
        ) by {
            assert(items.drop_last()[i] == items[i]);
        }
        lemma_texts_of_strings(items.drop_last(), texts.drop_last());
        assert(items.last().text() == Some(texts[n as int]));
        assert(texts.drop_last().push(texts.last()) =~= texts);
    }
}

/// Saving a password hash and then loading it gives that hash back.
pub proof fn law_password_hash_reads_back(
    before: Map<Seq<char>, JsonValue>,
    hash: Seq<char>,
    after: Map<Seq<char>, JsonValue>,
)
    requires
        password_hash_saved(before, hash, after),
    ensures
        password_hash_of(after) == Some(hash),
{
}

/// Saving desktop preferences and then loading them gives them back.
pub proof fn law_desktop_settings_read_back(
    before: Map<Seq<char>, JsonValue>,
    desktop: DesktopSettings,
)
    ensures
        desktop_settings_of(with_desktop_settings(before, desktop)) == desktop,
{
}

/// Saving pinned tree node ids and then loading them gives the same ids back,
/// in the same order.
pub proof fn law_pinned_ids_read_back(
    before: Map<Seq<char>, JsonValue>,
    ids: Seq<Seq<char>>,
    after: Map<Seq<char>, JsonValue>,
)
    requires
        pinned_ids_saved(before, ids, after),
    ensures
        pinned_ids_of(after) == ids,
{
    let items = after[pinned_tree_node_ids_name()]->Array_0;
    lemma_texts_of_strings(items@, ids);
}

/// Saving a password hash changes no other setting: the desktop preferences,
/// the pinned ids and every member of another name stay as they were.
pub proof fn law_password_hash_save_keeps_other_settings(
    before: Map<Seq<char>, JsonValue>,
    hash: Seq<char>,
    after: Map<Seq<char>, JsonValue>,
)
    requires
        password_hash_saved(before, hash, after),
    ensures
        desktop_settings_of(after) == desktop_settings_of(before),
        pinned_ids_of(after) == pinned_ids_of(before),
        after.remove(password_hash_name()) == before.remove(password_hash_name()),
{
    lemma_member_names_differ();
    assert(after.remove(password_hash_name()) =~= before.remove(password_hash_name()));
}

/// Saving desktop preferences changes no other setting: the password hash,
/// the pinned ids and every member other than the tray icon preference and the
/// legacy background member stay as they were.
pub proof fn law_desktop_settings_save_keeps_other_settings(
    before: Map<Seq<char>, JsonValue>,
    desktop: DesktopSettings,
)
    ensures
        password_hash_of(with_desktop_settings(before, desktop)) == password_hash_of(before),
        pinned_ids_of(with_desktop_settings(before, desktop)) == pinned_ids_of(before),
        with_desktop_settings(before, desktop).remove(show_tray_icon_name()).remove(
            run_in_background_name(),
        ) == before.remove(show_tray_icon_name()).remove(run_in_background_name()),
{
    lemma_member_names_differ();
    assert(with_desktop_settings(before, desktop).remove(show_tray_icon_name()).remove(
        run_in_background_name(),
    ) =~= before.remove(show_tray_icon_name()).remove(run_in_background_name()));
}

/// Saving pinned ids changes no other setting: the password hash, the desktop
/// preferences and every member of another name stay as they were.
pub proof fn law_pinned_ids_save_keeps_other_settings(
    before: Map<Seq<char>, JsonValue>,
    ids: Seq<Seq<char>>,
    after: Map<Seq<char>, JsonValue>,
)
    requires
        pinned_ids_saved(before, ids, after),
    ensures
        password_hash_of(after) == password_hash_of(before),
        desktop_settings_of(after) == desktop_settings_of(before),
        after.remove(pinned_tree_node_ids_name()) == before.remove(pinned_tree_node_ids_name()),
{
    lemma_member_names_differ();
    assert(after.remove(pinned_tree_node_ids_name()) =~= before.remove(
        pinned_tree_node_ids_name(),
    ));
}

/// Settings that were never saved read as: no password hash, the tray icon
/// shown, nothing pinned.
pub proof fn law_fresh_settings_read_as_defaults()
    ensures
        password_hash_of(Map::empty()) is None,
        desktop_settings_of(Map::empty()) == initial_desktop_settings(),
        pinned_ids_of(Map::empty()) == Seq::<Seq<char>>::empty(),
{
}

/// The legacy background member, whatever it holds, never changes the desktop
/// preferences that are read.
pub proof fn law_legacy_background_member_is_ignored(
    settings: Map<Seq<char>, JsonValue>,
    legacy: JsonValue,
)
    ensures
        desktop_settings_of(settings.insert(run_in_background_name(), legacy))
            == desktop_settings_of(settings),
{
    lemma_member_names_differ();
}

/// After desktop preferences are saved, the legacy background member is gone.
pub proof fn law_desktop_settings_save_drops_legacy_member(
    before: Map<Seq<char>, JsonValue>,
    desktop: DesktopSettings,
)
    ensures
        !with_desktop_settings(before, desktop).contains_key(run_in_background_name()),
{
    lemma_member_names_differ();
}

/// A document whose members have distinct names, as every stored document
/// does, reads back as exactly its members: each member's value under its
/// name, and no other name.
pub proof fn law_document_reads_back(members: Seq<(String, JsonValue)>)
    requires
        distinct_names(members),
    ensures
        forall|i: int|
            0 <= i < members.len() ==> #[trigger] members_map(members).contains_key(members[i].0@)
                && members_map(members)[members[i].0@] == members[i].1,
        forall|name: Seq<char>|
            #[trigger] members_map(members).contains_key(name) ==> exists|i: int|
                0 <= i < members.len() && members[i].0@ == name,
{
    assert forall|i: int| 0 <= i < members.len() implies #[trigger] members_map(
        members,
    ).contains_key(members[i].0@) && members_map(members)[members[i].0@] == members[i].1 by {
        lemma_members_map_value(members, i);
    }
    assert forall|name: Seq<char>| #[trigger] members_map(members).contains_key(name) implies exists|
        i: int,
    | 0 <= i < members.len() && members[i].0@ == name by {
        lemma_members_map_dom(members, name);
    }
}

/// One save of a single kind of setting.
pub enum SettingsSave {
    PasswordHash(Seq<char>),
    Desktop(DesktopSettings),
    PinnedIds(Seq<Seq<char>>),
}

/// `after` is `before` with `save` made, as the save methods promise.
pub open spec fn saved(
    before: Map<Seq<char>, JsonValue>,
    save: SettingsSave,
    after: Map<Seq<char>, JsonValue>,
) -> bool {
    match save {
        SettingsSave::PasswordHash(hash) => password_hash_saved(before, hash, after),
        SettingsSave::Desktop(desktop) => after == with_desktop_settings(before, desktop),
        SettingsSave::PinnedIds(ids) => pinned_ids_saved(before, ids, after),
    }
}

/// `states` are the settings before and after each of `saves`, made in order.
pub open spec fn saves_in_order(states: Seq<Map<Seq<char>, JsonValue>>, saves: Seq<SettingsSave>) -> bool {
    &&& states.len() == saves.len() + 1
    &&& forall|i: int| 0 <= i < saves.len() ==> saved(states[i], #[trigger] saves[i], states[i + 1])
}

proof fn lemma_saves_keep(
    states: Seq<Map<Seq<char>, JsonValue>>,
    saves: Seq<SettingsSave>,
    k: int,
)
    requires
        saves_in_order(states, saves),
        1 <= k <= saves.len(),
    ensures
        saves[0] is PasswordHash && (forall|i: int| 1 <= i < saves.len() ==> !(#[trigger] saves[i] is PasswordHash))
            ==> password_hash_of(states[k]) == Some(saves[0]->PasswordHash_0),
        saves[0] is Desktop && (forall|i: int| 1 <= i < saves.len() ==> !(#[trigger] saves[i] is Desktop))
            ==> desktop_settings_of(states[k]) == saves[0]->Desktop_0,
        saves[0] is PinnedIds && (forall|i: int| 1 <= i < saves.len() ==> !(#[trigger] saves[i] is PinnedIds))
            ==> pinned_ids_of(states[k]) == saves[0]->PinnedIds_0,
    decreases k,
{
    let save = saves[k - 1];
    assert(saved(states[k - 1], save, states[k]));
    if k == 1 {
        match save {
            SettingsSave::PasswordHash(hash) => {
                law_password_hash_reads_back(states[0], hash, states[1]);
            },
            SettingsSave::Desktop(desktop) => {
                law_desktop_settings_read_back(states[0], desktop);
            },
            SettingsSave::PinnedIds(ids) => {
                law_pinned_ids_read_back(states[0], ids, states[1]);
            },
        }
    } else {
        lemma_saves_keep(states, saves, k - 1);
        match save {
            SettingsSave::PasswordHash(hash) => {
                law_password_hash_save_keeps_other_settings(states[k - 1], hash, states[k]);
            },
            SettingsSave::Desktop(desktop) => {
                law_desktop_settings_save_keeps_other_settings(states[k - 1], desktop);
            },
            SettingsSave::PinnedIds(ids) => {
                law_pinned_ids_save_keeps_other_settings(states[k - 1], ids, states[k]);
            },
        }
    }
}

/// A saved password hash reads back after any number of later saves of the
/// desktop preferences and the pinned ids.
pub proof fn law_password_hash_survives_other_saves(
    states: Seq<Map<Seq<char>, JsonValue>>,
    saves: Seq<SettingsSave>,
    hash: Seq<char>,
)
    requires
        saves_in_order(states, saves),
        saves.len() > 0,
        saves[0] == SettingsSave::PasswordHash(hash),
        forall|i: int| 1 <= i < saves.len() ==> !(#[trigger] saves[i] is PasswordHash),
    ensures
        password_hash_of(states.last()) == Some(hash),
{
    lemma_saves_keep(states, saves, saves.len() as int);
}

/// Saved desktop preferences read back after any number of later saves of the
/// password hash and the pinned ids.
pub proof fn law_desktop_settings_survive_other_saves(
    states: Seq<Map<Seq<char>, JsonValue>>,
    saves: Seq<SettingsSave>,
    desktop: DesktopSettings,
)
    requires
        saves_in_order(states, saves),
        saves.len() > 0,
        saves[0] == SettingsSave::Desktop(desktop),
        forall|i: int| 1 <= i < saves.len() ==> !(#[trigger] saves[i] is Desktop),
    ensures
        desktop_settings_of(states.last()) == desktop,
{
    lemma_saves_keep(states, saves, saves.len() as int);
}

/// Saved pinned ids read back, in order, after any number of later saves of
/// the password hash and the desktop preferences.
pub proof fn law_pinned_ids_survive_other_saves(
    states: Seq<Map<Seq<char>, JsonValue>>,
    saves: Seq<SettingsSave>,
    ids: Seq<Seq<char>>,
)
    requires
        saves_in_order(states, saves),
        saves.len() > 0,
        saves[0] == SettingsSave::PinnedIds(ids),
        forall|i: int| 1 <= i < saves.len() ==> !(#[trigger] saves[i] is PinnedIds),
    ensures
        pinned_ids_of(states.last()) == ids,
{
    lemma_saves_keep(states, saves, saves.len() as int);
}

/// The view of an optional text.
pub open spec fn text_option_view(stored: Option<&str>) -> Option<Seq<char>> {
    match stored {
        Some(text) => Some(text@),
        None => None,
    }
}

/// The settings that the stored settings text reads as: no stored text reads
/// as no settings, an object as its members, other JSON as no settings, and
/// text that is not JSON reads as nothing at all.
pub open spec fn stored_settings_of(stored: Option<Seq<char>>) -> Option<Map<Seq<char>, JsonValue>> {
    match stored {
        None => Some(Map::empty()),
        Some(text) => match json_value_of(text) {
            None => None,
            Some(JsonValue::Object(members)) => Some(members_map(members@)),
            Some(_) => Some(Map::empty()),
        },
    }
}

/// Every member of the settings holds a plain value, which stored text keeps exactly.
pub open spec fn plain_settings(m: Map<Seq<char>, JsonValue>) -> bool {
    forall|name: Seq<char>| #[trigger] m.contains_key(name) ==> plain_member(m[name])
}

/// Each save of a setting writes a plain value, so settings whose members are
/// all plain stay so through any saves, and their stored text keeps them.
pub proof fn law_saves_keep_settings_plain(
    states: Seq<Map<Seq<char>, JsonValue>>,
    saves: Seq<SettingsSave>,
)
    requires
        saves_in_order(states, saves),
        plain_settings(states[0]),
    ensures
        forall|k: int| 0 <= k < states.len() ==> plain_settings(#[trigger] states[k]),
{
    assert forall|k: int| 0 <= k < states.len() implies plain_settings(#[trigger] states[k]) by {
        lemma_saves_keep_plain(states, saves, k);
    }
}

proof fn lemma_saves_keep_plain(
    states: Seq<Map<Seq<char>, JsonValue>>,
    saves: Seq<SettingsSave>,
    k: int,
)
    requires
        saves_in_order(states, saves),
        plain_settings(states[0]),
        0 <= k < states.len(),
    ensures
        plain_settings(states[k]),
    decreases k,
{
    if k > 0 {
        lemma_saves_keep_plain(states, saves, k - 1);
        let before = states[k - 1];
        let after = states[k];
        assert(saved(before, saves[k - 1], after));
        assert forall|name: Seq<char>| #[trigger] after.contains_key(name) implies plain_member(
            after[name],
        ) by {
            if before.contains_key(name) {
                assert(plain_member(before[name]));
            }
            match saves[k - 1] {
                SettingsSave::PinnedIds(ids) => {
                    if name == pinned_tree_node_ids_name() {
                        let items = after[name]->Array_0;
                        assert forall|i: int| 0 <= i < items@.len() implies #[trigger] crate::json::plain_item(
                            items@[i],
                        ) by {
                            assert(items@[i].text() == Some(ids[i]));
                        }
                    }
                },
                SettingsSave::PasswordHash(hash) => {},
                SettingsSave::Desktop(desktop) => {},
            }
        }
    }
}

/// The settings object: a list of members with distinct names. Its members
/// hold `JsonValue`s, which a `serde_json::Map` cannot hold, so the object
/// keeps them itself; the view forgets their order, as reading JSON does.
pub struct AppSettings {
    members: Vec<(String, JsonValue)>,
}

impl View for AppSettings {
    type V = Map<Seq<char>, JsonValue>;

    closed spec fn view(&self) -> Map<Seq<char>, JsonValue> {
        members_map(self.members@)
    }
}

impl AppSettings {
    #[verifier::type_invariant]
    spec fn names_are_distinct(self) -> bool {
        distinct_names(self.members@)
    }

    /// An empty settings object, as when no settings were ever stored.
    pub fn new() -> (r: AppSettings)
        ensures
            r@ == Map::<Seq<char>, JsonValue>::empty(),
    {
        AppSettings { members: Vec::new() }
    }

    /// The position of the member called `name`.
    fn position(&self, name: &str) -> (r: Option<usize>)
        ensures
            match r {
                Some(i) => i < self.members@.len() && self.members@[i as int].0@ == name@,
                None => forall|i: int|
                    0 <= i < self.members@.len() ==> #[trigger] self.members@[i].0@ != name@,
            },
    {
        let target = name.to_owned();
        let mut i: usize = 0;
        while i < self.members.len()
            invariant
                i <= self.members@.len(),
                target@ == name@,
                forall|k: int| 0 <= k < i ==> #[trigger] self.members@[k].0@ != name@,
            decreases self.members@.len() - i,
        {
            if self.members[i].0 == target {
                return Some(i);
            }
            i = i + 1;
        }
        None
    }

    /// The value of the member called `name`.
    pub fn get(&self, name: &str) -> (r: Option<&JsonValue>)
        ensures
            match r {
                Some(v) => self@.contains_key(name@) && self@[name@] == *v,
                None => !self@.contains_key(name@),
            },
    {
        proof {
            use_type_invariant(self);
            lemma_members_map_dom(self.members@, name@);
        }
        match self.position(name) {
            Some(i) => {
                proof {
                    lemma_members_map_value(self.members@, i as int);
                }
                Some(&self.members[i].1)
            },
            None => None,
        }
    }

    /// Sets the member called `name` to `value`, adding it if it is missing.
    pub fn insert(&mut self, name: String, value: JsonValue)
        ensures
            final(self)@ == old(self)@.insert(name@, value),
    {
        proof {
            use_type_invariant(&*self);
        }
        let found = self.position(name.as_str());
        let mut members: Vec<(String, JsonValue)> = Vec::new();
        std::mem::swap(&mut members, &mut self.members);
        match found {
            Some(i) => {
                proof {
                    lemma_members_map_update(members@, i as int, (name, value));
                }
                members.set(i, (name, value));
            },
            None => {
                proof {
                    lemma_members_map_push(members@, (name, value));
                }
                members.push((name, value));
            },
        }
        self.members = members;
    }

    /// Drops the member called `name`, if there is one.
    pub fn remove(&mut self, name: &str)
        ensures
            final(self)@ == old(self)@.remove(name@),
    {
        proof {
            use_type_invariant(&*self);
            lemma_members_map_dom(self.members@, name@);
        }
        match self.position(name) {
            Some(i) => {
                let mut members: Vec<(String, JsonValue)> = Vec::new();
                std::mem::swap(&mut members, &mut self.members);
                proof {
                    lemma_members_map_remove(members@, i as int);
                }
                members.remove(i);
                self.members = members;
            },
            None => {
                assert(old(self)@.remove(name@) =~= old(self)@);
            },
        }
    }

    /// Reads a stored settings document. An object gives its members (a later
    /// member of the same name wins); any other document gives no settings.
    pub fn from_document(document: JsonValue) -> (r: AppSettings)
        ensures
            r@ == match document {
                JsonValue::Object(members) => members_map(members@),
                _ => Map::<Seq<char>, JsonValue>::empty(),
            },
    {
        let mut settings = AppSettings::new();
        match document {
            JsonValue::Object(members) => {
                let ghost all = members@;
                let mut rest = members;
                let n = rest.len();
                let mut i: usize = 0;
                while i < n
                    invariant
                        n == all.len(),
                        i <= n,
                        rest@ == all.skip(i as int),
                        settings@ == members_map(all.take(i as int)),
                    decreases n - i,
                {
                    let (name, value) = rest.remove(0);
                    proof {
                        assert(all.take(i + 1).drop_last() =~= all.take(i as int));
                        assert(all.take(i + 1).last() == all[i as int]);
                    }
                    settings.insert(name, value);
                    proof {
                        assert(all.skip(i as int).remove(0) =~= all.skip(i + 1));
                    }
                    i = i + 1;
                }
                assert(all.take(n as int) =~= all);
                settings
            },
            _ => settings,
        }
    }

    /// Reads the stored settings text: no stored text gives empty settings,
    /// an object gives its members, other JSON gives empty settings, and text
    /// that is not JSON gives the reader's message.
    pub fn from_stored_text(stored: Option<&str>) -> (r: Result<AppSettings, String>)
        ensures
            match stored_settings_of(text_option_view(stored)) {
                Some(m) => r matches Ok(settings) && settings@ == m,
                None => r is Err,
            },
    {
        match JsonValue::parse_stored(stored) {
            Ok(Some(document)) => Ok(AppSettings::from_document(document)),
            Ok(None) => Ok(AppSettings::new()),
            Err(message) => Err(message),
        }
    }

    /// The text to store for these settings. When every member is plain, as
    /// the settings this library saves are, the text reads back as exactly
    /// these settings.
    pub fn to_stored_text(self) -> (r: String)
        ensures
            exists|document: JsonValue|
                #![trigger json_text_of(document)]
                r@ == json_text_of(document) && (document matches JsonValue::Object(members)
                    && distinct_names(members@) && members_map(members@) == self@),
            plain_settings(self@) ==> stored_settings_of(Some(r@)) == Some(self@),
    {
        let ghost view = self@;
        let document = self.into_document();
        proof {
            let members = document->Object_0;
            law_document_reads_back(members@);
            if plain_settings(view) {
                assert forall|i: int| 0 <= i < members@.len() implies #[trigger] plain_member(
                    members@[i].1,
                ) by {
                    assert(view.contains_key(members@[i].0@));
                }
                assert(plain_object(document));
            }
        }
        document.to_text()
    }

    /// The document to store for these settings: an object with one member per name.
    pub fn into_document(self) -> (r: JsonValue)
        ensures
            r matches JsonValue::Object(members) && distinct_names(members@) && members_map(
                members@,
            ) == self@,
    {
        proof {
            use_type_invariant(&self);
        }
        JsonValue::Object(self.members)
    }

    /// The stored password hash, if the settings hold one as a string.
    pub fn load_password_hash(&self) -> (r: Option<String>)
        ensures
            text_of_option(r) == password_hash_of(self@),
    {
        match self.get("password_hash") {
            Some(value) => match value.as_str() {
                Some(hash) => Some(hash.clone()),
                None => None,
            },
            None => None,
        }
    }

    /// Stores `hash` as the password hash; every other member is kept.
    pub fn save_password_hash(&mut self, hash: &str)
        ensures
            password_hash_saved(old(self)@, hash@, final(self)@),
    {
        self.insert(String::from_str("password_hash"), JsonValue::Str(hash.to_owned()));
    }

    /// The stored desktop preferences; a missing or non-boolean member reads
    /// as the initial preference.
    pub fn load_desktop_settings(&self) -> (r: DesktopSettings)
        ensures
            r == desktop_settings_of(self@),
    {
        let stored = match self.get("show_tray_icon") {
            Some(value) => value.as_bool(),
            None => None,
        };
        DesktopSettings {
            show_tray_icon: match stored {
                Some(b) => b,
                None => DesktopSettings::default().show_tray_icon,
            },
        }
    }

    /// Stores the desktop preferences and drops the legacy background member;
    /// every other member is kept.
    pub fn save_desktop_settings(&mut self, desktop: &DesktopSettings)
        ensures
            final(self)@ == with_desktop_settings(old(self)@, *desktop),
    {
        self.remove("run_in_background");
        self.insert(String::from_str("show_tray_icon"), JsonValue::Bool(desktop.show_tray_icon));
    }

    /// The pinned tree node ids: the string items of the stored array, in order.
    pub fn load_pinned_tree_node_ids(&self) -> (r: Vec<String>)
        ensures
            views_of(r@) == pinned_ids_of(self@),
    {
        let mut ids: Vec<String> = Vec::new();
        let items = match self.get("pinned_tree_node_ids") {
            Some(value) => match value.as_array() {
                Some(items) => items,
                None => {
                    assert(views_of(ids@) =~= Seq::<Seq<char>>::empty());
                    return ids;
                },
            },
            None => {
                assert(views_of(ids@) =~= Seq::<Seq<char>>::empty());
                return ids;
            },
        };
        let mut i: usize = 0;
        while i < items.len()
            invariant
                i <= items@.len(),
                views_of(ids@) == texts_of(items@.take(i as int)),
            decreases items@.len() - i,
        {
            proof {
                assert(items@.take(i + 1).drop_last() =~= items@.take(i as int));
                assert(items@.take(i + 1).last() == items@[i as int]);
            }
            match items[i].as_str() {
                Some(id) => {
                    let ghost before = ids@;
                    ids.push(id.clone());
                    assert(views_of(ids@) =~= views_of(before).push(id@));
                },
                None => {},
            }
            i = i + 1;
        }
        assert(items@.take(items@.len() as int) =~= items@);
        ids
    }

    /// Stores `ids` as an array of strings; every other member is kept.
    pub fn save_pinned_tree_node_ids(&mut self, ids: &[String])
        ensures
            pinned_ids_saved(old(self)@, views_of(ids@), final(self)@),
    {
        let mut items: Vec<JsonValue> = Vec::new();
        let mut i: usize = 0;
        while i < ids.len()
            invariant
                i <= ids@.len(),
                items@.len() == i,
                forall|k: int| 0 <= k < i ==> #[trigger] items@[k].text() == Some(ids@[k]@),
            decreases ids@.len() - i,
        {
            items.push(JsonValue::Str(ids[i].clone()));
            i = i + 1;
        }
        self.insert(String::from_str("pinned_tree_node_ids"), JsonValue::Array(items));
    }
}

} // verus!
