//! Secrets kept by earlier releases in a JSON file, keyed
//! `connection:{id}:{field}`, and their move into the secrets table.

use vstd::prelude::*;

verus! {

/// The legacy file's key for the secret `field` of connection `id`.
pub open spec fn legacy_secret_key(id: Seq<char>, field: Seq<char>) -> Seq<char> {
    "connection:"@ + id + ":"@ + field
}

/// The connection id and field that a legacy key names, if it names any. The
/// id is the text between the first and the second colon; the field is all
/// that follows the second colon.
pub open spec fn legacy_key_parts(key: Seq<char>) -> Option<(Seq<char>, Seq<char>)> {
    if exists|parts: (Seq<char>, Seq<char>)|
        !parts.0.contains(':') && key == #[trigger] legacy_secret_key(parts.0, parts.1) {
        Some(
            choose|parts: (Seq<char>, Seq<char>)|
                !parts.0.contains(':') && key == legacy_secret_key(parts.0, parts.1),
        )
    } else {
        None
    }
}

proof fn lemma_prefix_chars()
    ensures
        "connection:"@.len() == 11,
        "connection:"@[10] == ':',
        forall|k: int| 0 <= k < 10 ==> #[trigger] "connection:"@[k] != ':',
        "connection:"@ == "connection"@ + ":"@,
        ":"@ == seq![':'],
{
    reveal_strlit("connection:");
    reveal_strlit("connection");
    reveal_strlit(":");
    assert("connection:"@ =~= "connection"@ + ":"@);
}

proof fn lemma_legacy_key_shape(id: Seq<char>, field: Seq<char>)
    requires
        !id.contains(':'),
    ensures
        legacy_secret_key(id, field).len() == 12 + id.len() + field.len(),
        legacy_secret_key(id, field)[10] == ':',
        forall|k: int| 0 <= k < 10 ==> #[trigger] legacy_secret_key(id, field)[k] != ':',
        forall|k: int| 11 <= k < 11 + id.len() as int ==> #[trigger] legacy_secret_key(id, field)[k] != ':',
        legacy_secret_key(id, field)[11 + id.len() as int] == ':',
        legacy_secret_key(id, field).subrange(0, 10) == "connection"@,
        legacy_secret_key(id, field).subrange(11, 11 + id.len() as int) == id,
        legacy_secret_key(id, field).subrange(
            12 + id.len() as int,
            legacy_secret_key(id, field).len() as int,
        ) == field,
{
    lemma_prefix_chars();
    reveal_strlit("connection");
    let key = legacy_secret_key(id, field);
    assert forall|k: int| 11 <= k < 11 + id.len() as int implies #[trigger] key[k] != ':' by {
        assert(key[k] == id[k - 11]);
        if id[k - 11] == ':' {
            assert(id.contains(':'));
        }
    }
    assert(key.subrange(0, 10) =~= "connection"@);
    assert(key.subrange(11, 11 + id.len() as int) =~= id);
    assert(key.subrange(12 + id.len() as int, key.len() as int) =~= field);
}

proof fn lemma_legacy_key_unique(id: Seq<char>, field: Seq<char>, id2: Seq<char>, field2: Seq<char>)
    requires
        !id.contains(':'),
        !id2.contains(':'),
        legacy_secret_key(id, field) == legacy_secret_key(id2, field2),
    ensures
        id == id2,
        field == field2,
{
    let key = legacy_secret_key(id, field);
    lemma_legacy_key_shape(id, field);
    lemma_legacy_key_shape(id2, field2);
    if id.len() < id2.len() {
        assert(key[11 + id.len() as int] == ':');
    } else if id2.len() < id.len() {
        assert(key[11 + id2.len() as int] == ':');
    }
}

/// The key that names the secret `field` of connection `id` reads back as
/// that id and field, whenever the id holds no colon.
pub proof fn law_legacy_key_reads_back(id: Seq<char>, field: Seq<char>)
    requires
        !id.contains(':'),
    ensures
        legacy_key_parts(legacy_secret_key(id, field)) == Some((id, field)),
{
    let key = legacy_secret_key(id, field);
    let witness = (id, field);
    assert(!witness.0.contains(':') && key == legacy_secret_key(witness.0, witness.1));
    let parts = choose|parts: (Seq<char>, Seq<char>)|
        !parts.0.contains(':') && key == legacy_secret_key(parts.0, parts.1);
    lemma_legacy_key_unique(id, field, parts.0, parts.1);
}

/// The position of the first colon of `key` at or after `from`, or the
/// length of `key` when there is none.
fn find_colon(key: &str, from: usize, len: usize) -> (r: usize)
    requires
        len == key@.len(),
        from <= len,
    ensures
        from <= r <= len,
        r < len ==> key@[r as int] == ':',
        forall|k: int| from <= k < r ==> #[trigger] key@[k] != ':',
{
    let mut i = from;
    while i < len
        invariant
            len == key@.len(),
            from <= i <= len,
            forall|k: int| from <= k < i ==> #[trigger] key@[k] != ':',
        decreases len - i,
    {
        if key.get_char(i) == ':' {
            return i;
        }
        i = i + 1;
    }
    i
}

/// The connection id and field that a legacy secret key names.
pub fn parse_legacy_secret_key(key: &str) -> (r: Option<(String, String)>)
    ensures
        match r {
            Some((id, field)) => legacy_key_parts(key@) == Some((id@, field@)),
            None => legacy_key_parts(key@) is None,
        },
{
    let len = key.unicode_len();
    let first = find_colon(key, 0, len);
    proof {
        lemma_prefix_chars();
        if legacy_key_parts(key@) is Some {
            let parts = legacy_key_parts(key@)->0;
            lemma_legacy_key_shape(parts.0, parts.1);
        }
    }
    if first == len {
        return None;
    }
    let head = key.substring_char(0, first).to_owned();
    if head != String::from_str("connection") {
        proof {
            reveal_strlit("connection");
            if legacy_key_parts(key@) is Some {
                let parts = legacy_key_parts(key@)->0;
                assert(first == 10);
            }
        }
        return None;
    }
    let second = find_colon(key, first + 1, len);
    if second == len {
        proof {
            reveal_strlit("connection");
            assert(head@.len() == 10);
            if legacy_key_parts(key@) is Some {
                let parts = legacy_key_parts(key@)->0;
                assert(key@[11 + parts.0.len() as int] == ':');
            }
        }
        return None;
    }
    let id = key.substring_char(first + 1, second).to_owned();
    let field = key.substring_char(second + 1, len).to_owned();
    proof {
        reveal_strlit("connection");
        assert(head@.len() == 10);
        assert(!id@.contains(':')) by {
            if id@.contains(':') {
                let k = choose|k: int| 0 <= k < id@.len() && id@[k] == ':';
                assert(key@[first + 1 + k] == ':');
            }
        }
        assert(key@ =~= legacy_secret_key(id@, field@)) by {
            assert(key@ =~= head@ + ":"@ + id@ + ":"@ + field@);
        }
        let witness = (id@, field@);
        assert(!witness.0.contains(':') && key@ == legacy_secret_key(witness.0, witness.1));
        let parts = legacy_key_parts(key@)->0;
        lemma_legacy_key_unique(id@, field@, parts.0, parts.1);
    }
    Some((id, field))
}

/// A secret of the legacy file, with the connection and field it belongs to.
pub struct LegacySecret {
    pub connection_id: String,
    pub key: String,
    pub secret: String,
}

/// The views of a list of legacy file entries.
pub open spec fn entry_views(entries: Seq<(String, String)>) -> Seq<(Seq<char>, Seq<char>)> {
    entries.map_values(|e: (String, String)| (e.0@, e.1@))
}

/// The views of a list of legacy secrets.
pub open spec fn legacy_views(secrets: Seq<LegacySecret>) -> Seq<(Seq<char>, Seq<char>, Seq<char>)> {
    secrets.map_values(|s: LegacySecret| (s.connection_id@, s.key@, s.secret@))
}

/// The secrets that legacy file entries hold, in order: an entry whose key
/// names a connection and a field gives that field's secret; any other entry
/// is skipped.
pub open spec fn legacy_secrets_of(entries: Seq<(Seq<char>, Seq<char>)>) -> Seq<
    (Seq<char>, Seq<char>, Seq<char>),
>
    decreases entries.len(),
{
    if entries.len() == 0 {
        Seq::empty()
    } else {
        let rest = legacy_secrets_of(entries.drop_last());
        match legacy_key_parts(entries.last().0) {
            Some(parts) => rest.push((parts.0, parts.1, entries.last().1)),
            None => rest,
        }
    }
}

/// The object that a list of members denotes; a later member replaces an
/// earlier one of the same name.
pub open spec fn pairs_map(entries: Seq<(Seq<char>, Seq<char>)>) -> Map<Seq<char>, Seq<char>>
    decreases entries.len(),
{
    if entries.len() == 0 {
        Map::empty()
    } else {
        pairs_map(entries.drop_last()).insert(entries.last().0, entries.last().1)
    }
}

/// No two entries share a key.
pub open spec fn distinct_keys(entries: Seq<(Seq<char>, Seq<char>)>) -> bool {
    forall|i: int, j: int|
        #![trigger entries[i], entries[j]]
        0 <= i < entries.len() && 0 <= j < entries.len() && i != j ==> entries[i].0
            != entries[j].0
}

/// What `serde_json` reads from `text` as a JSON object whose members are all
/// strings: the members, or nothing when `text` is not such an object.
pub uninterp spec fn json_string_object(text: Seq<char>) -> Option<Map<Seq<char>, Seq<char>>>;

/// Reads `text` with `serde_json::from_str` as a `HashMap<String, String>`.
/// The contract claims only that a text that reads as such a map gives each of
/// its members once, and that a text that does not gives nothing; the order of
/// the members is the order in which the map was walked, which is left open.
#[verifier::external_body]
fn parse_string_object(text: &str) -> (r: Option<Vec<(String, String)>>)
    ensures
        match r {
            Some(entries) => distinct_keys(entry_views(entries@)) && json_string_object(text@)
                == Some(pairs_map(entry_views(entries@))),
            None => json_string_object(text@) is None,
        },
{
    match serde_json::from_str::<std::collections::HashMap<String, String>>(text) {
        Ok(map) => Some(map.into_iter().collect()),
        Err(_) => None,
    }
}

/// The secrets that legacy file entries hold, in order.
pub fn legacy_secrets(entries: Vec<(String, String)>) -> (r: Vec<LegacySecret>)
    ensures
        legacy_views(r@) == legacy_secrets_of(entry_views(entries@)),
{
    let ghost all = entries@;
    let mut rest = entries;
    let n = rest.len();
    let mut found: Vec<LegacySecret> = Vec::new();
    let mut i: usize = 0;
    while i < n
        invariant
            n == all.len(),
            i <= n,
            rest@ == all.skip(i as int),
            legacy_views(found@) == legacy_secrets_of(entry_views(all.take(i as int))),
        decreases n - i,
    {
        let (key, secret) = rest.remove(0);
        proof {
            assert(all.skip(i as int).remove(0) =~= all.skip(i + 1));
            assert(entry_views(all.take(i + 1)).drop_last() =~= entry_views(all.take(i as int)));
            assert(entry_views(all.take(i + 1)).last() == (key@, secret@));
        }
        match parse_legacy_secret_key(key.as_str()) {
            Some((connection_id, field)) => {
                let ghost before = found@;
                found.push(LegacySecret { connection_id, key: field, secret });
                assert(legacy_views(found@) =~= legacy_views(before).push(
                    (connection_id@, field@, secret@),
                ));
            },
            None => {},
        }
        i = i + 1;
    }
    assert(all.take(n as int) =~= all);
    found
}

/// The secrets held by the text of the legacy secrets file. A text that is not
/// a JSON object of strings holds none. The secrets come in the order in which
/// the parsed object was walked.
pub fn read_legacy_secrets(text: &str) -> (r: Vec<LegacySecret>)
    ensures
        match json_string_object(text@) {
            None => r@.len() == 0,
            Some(members) => exists|entries: Seq<(Seq<char>, Seq<char>)>|
                #![trigger legacy_secrets_of(entries)]
                distinct_keys(entries) && pairs_map(entries) == members && legacy_views(r@)
                    == legacy_secrets_of(entries),
        },
{
    match parse_string_object(text) {
        Some(entries) => {
            let ghost seen = entry_views(entries@);
            let r = legacy_secrets(entries);
            assert(legacy_views(r@) == legacy_secrets_of(seen));
            r
        },
        None => Vec::new(),
    }
}

proof fn lemma_pairs_map_members(entries: Seq<(Seq<char>, Seq<char>)>, key: Seq<char>)
    requires
        distinct_keys(entries),
    ensures
        pairs_map(entries).contains_key(key) <==> exists|i: int|
            0 <= i < entries.len() && #[trigger] entries[i].0 == key,
        forall|i: int|
            0 <= i < entries.len() && #[trigger] entries[i].0 == key ==> pairs_map(entries)[key]
                == entries[i].1,
    decreases entries.len(),
{
    if entries.len() > 0 {
        let rest = entries.drop_last();
        let n = entries.len() - 1;
        assert forall|a: int, b: int|
            #![trigger rest[a], rest[b]]
            0 <= a < rest.len() && 0 <= b < rest.len() && a != b implies rest[a].0
            != rest[b].0 by {
            assert(rest[a] == entries[a] && rest[b] == entries[b]);
        }
        lemma_pairs_map_members(rest, key);
        if pairs_map(entries).contains_key(key) {
            if entries.last().0 == key {
                assert(entries[n].0 == key);
            } else {
                let i = choose|i: int| 0 <= i < rest.len() && #[trigger] rest[i].0 == key;
                assert(entries[i] == rest[i]);
            }
        }
        assert forall|i: int| 0 <= i < entries.len() && #[trigger] entries[i].0 == key implies (
        pairs_map(entries).contains_key(key) && pairs_map(entries)[key] == entries[i].1) by {
            if i < n {
                assert(rest[i] == entries[i]);
                assert(entries[i].0 != entries[n].0);
            }
        }
    }
}

proof fn lemma_legacy_secrets_members(
    entries: Seq<(Seq<char>, Seq<char>)>,
    found: (Seq<char>, Seq<char>, Seq<char>),
)
    ensures
        legacy_secrets_of(entries).contains(found) <==> exists|i: int|
            0 <= i < entries.len() && #[trigger] legacy_key_parts(entries[i].0) == Some(
                (found.0, found.1),
            ) && entries[i].1 == found.2,
    decreases entries.len(),
{
    if entries.len() > 0 {
        let rest = entries.drop_last();
        let n = entries.len() - 1;
        lemma_legacy_secrets_members(rest, found);
        let found_rest = legacy_secrets_of(rest);
        if legacy_secrets_of(entries).contains(found) {
            let all = legacy_secrets_of(entries);
            let k = choose|k: int| 0 <= k < all.len() && all[k] == found;
            if k < found_rest.len() {
                assert(found_rest[k] == found);
                let i = choose|i: int|
                    0 <= i < rest.len() && #[trigger] legacy_key_parts(rest[i].0) == Some(
                        (found.0, found.1),
                    ) && rest[i].1 == found.2;
                assert(entries[i] == rest[i]);
            } else {
                assert(legacy_key_parts(entries[n].0) == Some((found.0, found.1)));
            }
        }
        if exists|i: int|
            0 <= i < entries.len() && #[trigger] legacy_key_parts(entries[i].0) == Some(
                (found.0, found.1),
            ) && entries[i].1 == found.2 {
            let i = choose|i: int|
                0 <= i < entries.len() && #[trigger] legacy_key_parts(entries[i].0) == Some(
                    (found.0, found.1),
                ) && entries[i].1 == found.2;
            if i < n {
                assert(rest[i] == entries[i]);
                let k = choose|k: int| 0 <= k < found_rest.len() && found_rest[k] == found;
                match legacy_key_parts(entries.last().0) {
                    Some(parts) => {
                        assert(found_rest.push((parts.0, parts.1, entries.last().1))[k] == found);
                    },
                    None => {},
                }
            } else {
                assert(found_rest.push(found)[found_rest.len() as int] == found);
            }
        }
    }
}

proof fn lemma_legacy_key_parts_shape(key: Seq<char>)
    ensures
        legacy_key_parts(key) matches Some(parts) ==> !parts.0.contains(':') && key
            == legacy_secret_key(parts.0, parts.1),
{
}

/// Moving the legacy secrets file keeps exactly the secrets that belong to a
/// connection: every secret moved is a member of the file under the key that
/// names its connection and field, and every such member is moved.
pub proof fn law_legacy_secrets_moved(
    entries: Seq<(Seq<char>, Seq<char>)>,
    members: Map<Seq<char>, Seq<char>>,
)
    requires
        distinct_keys(entries),
        pairs_map(entries) == members,
    ensures
        forall|found: (Seq<char>, Seq<char>, Seq<char>)|
            #[trigger] legacy_secrets_of(entries).contains(found) ==> members.contains_key(
                legacy_secret_key(found.0, found.1),
            ) && members[legacy_secret_key(found.0, found.1)] == found.2,
        forall|key: Seq<char>|
            #[trigger] members.contains_key(key) && legacy_key_parts(key) is Some
                ==> legacy_secrets_of(entries).contains(
                ((legacy_key_parts(key)->0).0, (legacy_key_parts(key)->0).1, members[key]),
            ),
{
    assert forall|found: (Seq<char>, Seq<char>, Seq<char>)|
        #[trigger] legacy_secrets_of(entries).contains(found) implies members.contains_key(
        legacy_secret_key(found.0, found.1),
    ) && members[legacy_secret_key(found.0, found.1)] == found.2 by {
        lemma_legacy_secrets_members(entries, found);
        let i = choose|i: int|
            0 <= i < entries.len() && #[trigger] legacy_key_parts(entries[i].0) == Some(
                (found.0, found.1),
            ) && entries[i].1 == found.2;
        lemma_legacy_key_parts_shape(entries[i].0);
        lemma_pairs_map_members(entries, entries[i].0);
    }
    assert forall|key: Seq<char>|
        #[trigger] members.contains_key(key) && legacy_key_parts(key) is Some
            implies legacy_secrets_of(entries).contains(
        ((legacy_key_parts(key)->0).0, (legacy_key_parts(key)->0).1, members[key]),
    ) by {
        lemma_pairs_map_members(entries, key);
        let i = choose|i: int| 0 <= i < entries.len() && #[trigger] entries[i].0 == key;
        let found = ((legacy_key_parts(key)->0).0, (legacy_key_parts(key)->0).1, members[key]);
        lemma_legacy_secrets_members(entries, found);
        assert(legacy_key_parts(entries[i].0) == Some((found.0, found.1)));
    }
}

} // verus!
