//! Connection secrets: which rows of the secrets table a save writes or
//! deletes, what a load makes of the rows it finds, and how secrets kept in
//! the legacy JSON file are named.

use vstd::prelude::*;

use crate::json::text_of_option;

verus! {

/// The secrets table, keyed by connection id and secret name.
pub type SecretStore = Map<(Seq<char>, Seq<char>), Seq<char>>;

/// One change to the secrets table.
pub enum SecretWrite {
    /// Delete the secret `key` of the connection, if there is one.
    Delete { connection_id: String, key: String },
    /// Write the secret `key` of the connection, replacing any earlier one.
    Upsert { connection_id: String, key: String, secret: String },
}

/// The table after one change.
pub open spec fn apply_secret_write(store: SecretStore, write: SecretWrite) -> SecretStore {
    match write {
        SecretWrite::Delete { connection_id, key } => store.remove((connection_id@, key@)),
        SecretWrite::Upsert { connection_id, key, secret } => store.insert(
            (connection_id@, key@),
            secret@,
        ),
    }
}

/// The table after a list of changes, applied in order.
pub open spec fn apply_secret_writes(store: SecretStore, writes: Seq<SecretWrite>) -> SecretStore
    decreases writes.len(),
{
    if writes.len() == 0 {
        store
    } else {
        apply_secret_write(apply_secret_writes(store, writes.drop_last()), writes.last())
    }
}

/// The secret `key` of a connection, if the table holds one.
pub open spec fn stored_secret(store: SecretStore, connection_id: Seq<char>, key: Seq<char>) -> Option<
    Seq<char>,
> {
    if store.contains_key((connection_id, key)) {
        Some(store[(connection_id, key)])
    } else {
        None
    }
}

/// `write` persists `secret` as the secret `key` of the connection: an empty
/// secret deletes the row, any other is written.
pub open spec fn persists(
    write: SecretWrite,
    connection_id: Seq<char>,
    key: Seq<char>,
    secret: Seq<char>,
) -> bool {
    match write {
        SecretWrite::Delete { connection_id: c, key: k } => secret.len() == 0 && c@ == connection_id
            && k@ == key,
        SecretWrite::Upsert { connection_id: c, key: k, secret: s } => secret.len() > 0 && c@
            == connection_id && k@ == key && s@ == secret,
    }
}

/// `write` deletes the secret `key` of the connection.
pub open spec fn deletes(write: SecretWrite, connection_id: Seq<char>, key: Seq<char>) -> bool {
    match write {
        SecretWrite::Delete { connection_id: c, key: k } => c@ == connection_id && k@ == key,
        _ => false,
    }
}

/// The names under which the secrets of a connection are stored.
pub open spec fn password_key() -> Seq<char> {
    "password"@
}

pub open spec fn ssh_password_key() -> Seq<char> {
    "ssh_password"@
}

pub open spec fn ssh_key_passphrase_key() -> Seq<char> {
    "ssh_key_passphrase"@
}

pub open spec fn proxy_password_key() -> Seq<char> {
    "proxy_password"@
}

pub open spec fn connection_string_key() -> Seq<char> {
    "connection_string"@
}

/// The decision of persisting one secret: an empty secret deletes its row,
/// any other secret is written.
pub fn persist_secret(connection_id: &str, key: &str, secret: &str) -> (r: SecretWrite)
    ensures
        persists(r, connection_id@, key@, secret@),
{
    if secret.is_empty() {
        SecretWrite::Delete { connection_id: connection_id.to_owned(), key: key.to_owned() }
    } else {
        SecretWrite::Upsert {
            connection_id: connection_id.to_owned(),
            key: key.to_owned(),
            secret: secret.to_owned(),
        }
    }
}

/// The secrets of a connection, which are stored apart from its configuration.
pub struct ConnectionSecrets {
    pub password: String,
    pub ssh_password: String,
    pub ssh_key_passphrase: String,
    pub proxy_password: String,
    pub connection_string: Option<String>,
}

/// `writes` are the changes that saving `secrets` for the connection makes:
/// each secret is persisted, and a missing connection string is deleted.
pub open spec fn secret_writes_for(
    writes: Seq<SecretWrite>,
    connection_id: Seq<char>,
    secrets: ConnectionSecrets,
) -> bool {
    &&& writes.len() == 5
    &&& persists(writes[0], connection_id, password_key(), secrets.password@)
    &&& persists(writes[1], connection_id, ssh_password_key(), secrets.ssh_password@)
    &&& persists(writes[2], connection_id, ssh_key_passphrase_key(), secrets.ssh_key_passphrase@)
    &&& persists(writes[3], connection_id, proxy_password_key(), secrets.proxy_password@)
    &&& match secrets.connection_string {
        Some(cs) => persists(writes[4], connection_id, connection_string_key(), cs@),
        None => deletes(writes[4], connection_id, connection_string_key()),
    }
}

/// A stored secret, or the empty string when there is none.
pub open spec fn or_empty(secret: Option<Seq<char>>) -> Seq<char> {
    match secret {
        Some(s) => s,
        None => Seq::empty(),
    }
}

/// `loaded` is what the stored secrets read as: a missing secret reads as the
/// empty string, a missing connection string stays missing.
pub open spec fn secrets_loaded_from(
    loaded: ConnectionSecrets,
    password: Option<Seq<char>>,
    ssh_password: Option<Seq<char>>,
    ssh_key_passphrase: Option<Seq<char>>,
    proxy_password: Option<Seq<char>>,
    connection_string: Option<Seq<char>>,
) -> bool {
    &&& loaded.password@ == or_empty(password)
    &&& loaded.ssh_password@ == or_empty(ssh_password)
    &&& loaded.ssh_key_passphrase@ == or_empty(ssh_key_passphrase)
    &&& loaded.proxy_password@ == or_empty(proxy_password)
    &&& text_of_option(loaded.connection_string) == connection_string
}

fn text_or_empty(secret: Option<String>) -> (r: String)
    ensures
        r@ == or_empty(text_of_option(secret)),
{
    match secret {
        Some(s) => s,
        None => String::new(),
    }
}

impl ConnectionSecrets {
    /// No secrets: what a connection's configuration holds once its secrets
    /// are taken out to be stored apart.
    pub fn cleared() -> (r: ConnectionSecrets)
        ensures
            r.password@.len() == 0,
            r.ssh_password@.len() == 0,
            r.ssh_key_passphrase@.len() == 0,
            r.proxy_password@.len() == 0,
            r.connection_string is None,
    {
        ConnectionSecrets {
            password: String::new(),
            ssh_password: String::new(),
            ssh_key_passphrase: String::new(),
            proxy_password: String::new(),
            connection_string: None,
        }
    }

    /// The changes to the secrets table that saving these secrets makes.
    pub fn write_plan(&self, connection_id: &str) -> (r: Vec<SecretWrite>)
        ensures
            secret_writes_for(r@, connection_id@, *self),
    {
        let mut writes: Vec<SecretWrite> = Vec::new();
        writes.push(persist_secret(connection_id, "password", self.password.as_str()));
        writes.push(persist_secret(connection_id, "ssh_password", self.ssh_password.as_str()));
        writes.push(
            persist_secret(connection_id, "ssh_key_passphrase", self.ssh_key_passphrase.as_str()),
        );
        writes.push(persist_secret(connection_id, "proxy_password", self.proxy_password.as_str()));
        match &self.connection_string {
            Some(cs) => {
                writes.push(persist_secret(connection_id, "connection_string", cs.as_str()));
            },
            None => {
                writes.push(
                    SecretWrite::Delete {
                        connection_id: connection_id.to_owned(),
                        key: String::from_str("connection_string"),
                    },
                );
            },
        }
        writes
    }

    /// The secrets that the stored rows read as.
    pub fn from_stored(
        password: Option<String>,
        ssh_password: Option<String>,
        ssh_key_passphrase: Option<String>,
        proxy_password: Option<String>,
        connection_string: Option<String>,
    ) -> (r: ConnectionSecrets)
        ensures
            secrets_loaded_from(
                r,
                text_of_option(password),
                text_of_option(ssh_password),
                text_of_option(ssh_key_passphrase),
                text_of_option(proxy_password),
                text_of_option(connection_string),
            ),
    {
        ConnectionSecrets {
            password: text_or_empty(password),
            ssh_password: text_or_empty(ssh_password),
            ssh_key_passphrase: text_or_empty(ssh_key_passphrase),
            proxy_password: text_or_empty(proxy_password),
            connection_string,
        }
    }
}

proof fn lemma_secret_keys_differ()
    ensures
        password_key() != ssh_password_key(),
        password_key() != ssh_key_passphrase_key(),
        password_key() != proxy_password_key(),
        password_key() != connection_string_key(),
        ssh_password_key() != ssh_key_passphrase_key(),
        ssh_password_key() != proxy_password_key(),
        ssh_password_key() != connection_string_key(),
        ssh_key_passphrase_key() != proxy_password_key(),
        ssh_key_passphrase_key() != connection_string_key(),
        proxy_password_key() != connection_string_key(),
{
    reveal_strlit("password");
    reveal_strlit("ssh_password");
    reveal_strlit("ssh_key_passphrase");
    reveal_strlit("proxy_password");
    reveal_strlit("connection_string");
    assert(password_key().len() == 8);
    assert(ssh_password_key().len() == 12);
    assert(ssh_key_passphrase_key().len() == 18);
    assert(proxy_password_key().len() == 14);
    assert(connection_string_key().len() == 17);
}

/// Secrets saved for a connection and loaded again come back as they were,
/// except that an empty connection string comes back as none. Secrets of other
/// connections are not touched.
pub proof fn law_connection_secrets_read_back(
    store: SecretStore,
    connection_id: Seq<char>,
    secrets: ConnectionSecrets,
    writes: Seq<SecretWrite>,
    loaded: ConnectionSecrets,
)
    requires
        secret_writes_for(writes, connection_id, secrets),
        secrets_loaded_from(
            loaded,
            stored_secret(apply_secret_writes(store, writes), connection_id, password_key()),
            stored_secret(apply_secret_writes(store, writes), connection_id, ssh_password_key()),
            stored_secret(
                apply_secret_writes(store, writes),
                connection_id,
                ssh_key_passphrase_key(),
            ),
            stored_secret(apply_secret_writes(store, writes), connection_id, proxy_password_key()),
            stored_secret(
                apply_secret_writes(store, writes),
                connection_id,
                connection_string_key(),
            ),
        ),
    ensures
        loaded.password@ == secrets.password@,
        loaded.ssh_password@ == secrets.ssh_password@,
        loaded.ssh_key_passphrase@ == secrets.ssh_key_passphrase@,
        loaded.proxy_password@ == secrets.proxy_password@,
        text_of_option(loaded.connection_string) == match secrets.connection_string {
            Some(cs) => if cs@.len() > 0 {
                Some(cs@)
            } else {
                None
            },
            None => None,
        },
        forall|entry: (Seq<char>, Seq<char>)|
            entry.0 != connection_id ==> (#[trigger] apply_secret_writes(store, writes).contains_key(
                entry,
            ) == store.contains_key(entry) && (store.contains_key(entry) ==> apply_secret_writes(
                store,
                writes,
            )[entry] == store[entry])),
{
    lemma_apply_secret_plan(store, connection_id, secrets, writes);
    law_stored_secrets_load_back(
        apply_secret_writes(store, writes),
        connection_id,
        secrets,
        loaded,
    );
}

/// How a saved secret is stored: an empty secret has no row.
pub open spec fn stored_form(secret: Seq<char>) -> Option<Seq<char>> {
    if secret.len() > 0 {
        Some(secret)
    } else {
        None
    }
}

/// The table holds the secrets of the connection as saving `secrets` leaves
/// them: each non-empty secret in its row, no row for an empty or missing one.
pub open spec fn secrets_stored(store: SecretStore, connection_id: Seq<char>, secrets: ConnectionSecrets) -> bool {
    &&& stored_secret(store, connection_id, password_key()) == stored_form(secrets.password@)
    &&& stored_secret(store, connection_id, ssh_password_key()) == stored_form(secrets.ssh_password@)
    &&& stored_secret(store, connection_id, ssh_key_passphrase_key()) == stored_form(
        secrets.ssh_key_passphrase@,
    )
    &&& stored_secret(store, connection_id, proxy_password_key()) == stored_form(
        secrets.proxy_password@,
    )
    &&& stored_secret(store, connection_id, connection_string_key()) == match secrets.connection_string {
        Some(cs) => stored_form(cs@),
        None => None,
    }
}

/// `after` holds the same rows as `before` for every connection other than
/// `connection_id`.
pub open spec fn same_except_connection(
    before: SecretStore,
    after: SecretStore,
    connection_id: Seq<char>,
) -> bool {
    forall|entry: (Seq<char>, Seq<char>)|
        entry.0 != connection_id ==> (#[trigger] after.contains_key(entry) == before.contains_key(
            entry,
        ) && (before.contains_key(entry) ==> after[entry] == before[entry]))
}

/// The table after the writes of several saves, applied save by save.
pub open spec fn apply_secret_plans(store: SecretStore, plans: Seq<Seq<SecretWrite>>) -> SecretStore
    decreases plans.len(),
{
    if plans.len() == 0 {
        store
    } else {
        apply_secret_writes(apply_secret_plans(store, plans.drop_last()), plans.last())
    }
}

/// The table after the stale secrets are removed: only the rows of the
/// connections in `retained` are left. This is what the statement of
/// `stale_secrets_statement` deletes, with `retained` bound to its placeholders.
pub open spec fn remove_stale_secrets(store: SecretStore, retained: Seq<Seq<char>>) -> SecretStore {
    Map::new(
        |entry: (Seq<char>, Seq<char>)| store.contains_key(entry) && retained.contains(entry.0),
        |entry: (Seq<char>, Seq<char>)| store[entry],
    )
}

proof fn lemma_apply_secret_plan(
    store: SecretStore,
    connection_id: Seq<char>,
    secrets: ConnectionSecrets,
    writes: Seq<SecretWrite>,
)
    requires
        secret_writes_for(writes, connection_id, secrets),
    ensures
        secrets_stored(apply_secret_writes(store, writes), connection_id, secrets),
        same_except_connection(store, apply_secret_writes(store, writes), connection_id),
{
    lemma_secret_keys_differ();
    reveal_with_fuel(apply_secret_writes, 6);
    let s1 = apply_secret_write(store, writes[0]);
    let s2 = apply_secret_write(s1, writes[1]);
    let s3 = apply_secret_write(s2, writes[2]);
    let s4 = apply_secret_write(s3, writes[3]);
    let s5 = apply_secret_write(s4, writes[4]);
    assert(writes.drop_last().drop_last().drop_last().drop_last().drop_last() =~= Seq::<
        SecretWrite,
    >::empty());
    assert(apply_secret_writes(store, writes) == s5) by {
        let w4 = writes.drop_last();
        let w3 = w4.drop_last();
        let w2 = w3.drop_last();
        let w1 = w2.drop_last();
        assert(w1.last() == writes[0] && w2.last() == writes[1] && w3.last() == writes[2]
            && w4.last() == writes[3] && writes.last() == writes[4]);
    }
}

proof fn lemma_secrets_stored_kept(
    before: SecretStore,
    after: SecretStore,
    changed: Seq<char>,
    connection_id: Seq<char>,
    secrets: ConnectionSecrets,
)
    requires
        secrets_stored(before, connection_id, secrets),
        same_except_connection(before, after, changed),
        connection_id != changed,
    ensures
        secrets_stored(after, connection_id, secrets),
{
    assert(after.contains_key((connection_id, password_key())) == before.contains_key(
        (connection_id, password_key()),
    ));
    assert(after.contains_key((connection_id, ssh_password_key())) == before.contains_key(
        (connection_id, ssh_password_key()),
    ));
    assert(after.contains_key((connection_id, ssh_key_passphrase_key())) == before.contains_key(
        (connection_id, ssh_key_passphrase_key()),
    ));
    assert(after.contains_key((connection_id, proxy_password_key())) == before.contains_key(
        (connection_id, proxy_password_key()),
    ));
    assert(after.contains_key((connection_id, connection_string_key())) == before.contains_key(
        (connection_id, connection_string_key()),
    ));
}

proof fn lemma_apply_secret_plans(
    store: SecretStore,
    ids: Seq<Seq<char>>,
    secrets: Seq<ConnectionSecrets>,
    plans: Seq<Seq<SecretWrite>>,
)
    requires
        ids.len() == secrets.len(),
        secrets.len() == plans.len(),
        ids.no_duplicates(),
        forall|i: int| 0 <= i < plans.len() ==> secret_writes_for(#[trigger] plans[i], ids[i], secrets[i]),
    ensures
        forall|i: int|
            0 <= i < plans.len() ==> secrets_stored(
                apply_secret_plans(store, plans),
                #[trigger] ids[i],
                secrets[i],
            ),
    decreases plans.len(),
{
    if plans.len() > 0 {
        let n = plans.len() - 1;
        let (ids0, secrets0, plans0) = (ids.drop_last(), secrets.drop_last(), plans.drop_last());
        assert forall|i: int| 0 <= i < plans0.len() implies secret_writes_for(
            #[trigger] plans0[i],
            ids0[i],
            secrets0[i],
        ) by {
            assert(plans0[i] == plans[i] && ids0[i] == ids[i] && secrets0[i] == secrets[i]);
        }
        assert(ids0.no_duplicates()) by {
            assert forall|a: int, b: int|
                0 <= a < ids0.len() && 0 <= b < ids0.len() && a != b implies ids0[a] != ids0[b] by {
                assert(ids0[a] == ids[a] && ids0[b] == ids[b]);
            }
        }
        lemma_apply_secret_plans(store, ids0, secrets0, plans0);
        let before = apply_secret_plans(store, plans0);
        assert(plans[n] == plans.last());
        lemma_apply_secret_plan(before, ids[n], secrets[n], plans[n]);
        assert forall|i: int| 0 <= i < plans.len() implies secrets_stored(
            apply_secret_plans(store, plans),
            #[trigger] ids[i],
            secrets[i],
        ) by {
            if i < n {
                assert(ids0[i] == ids[i] && secrets0[i] == secrets[i]);
                assert(ids[i] != ids[n]);
                lemma_secrets_stored_kept(
                    before,
                    apply_secret_plans(store, plans),
                    ids[n],
                    ids[i],
                    secrets[i],
                );
            }
        }
    }
}

/// Saving a list of connections with distinct ids, then removing the secrets
/// of connections no longer saved, leaves exactly what the save promises:
/// every row that remains belongs to a saved connection (none remain when no
/// connection is saved), and each saved connection's secrets are stored as
/// its own save leaves them.
pub proof fn law_saved_connections_keep_only_their_secrets(
    store: SecretStore,
    ids: Seq<Seq<char>>,
    secrets: Seq<ConnectionSecrets>,
    plans: Seq<Seq<SecretWrite>>,
)
    requires
        ids.len() == secrets.len(),
        secrets.len() == plans.len(),
        ids.no_duplicates(),
        forall|i: int| 0 <= i < plans.len() ==> secret_writes_for(#[trigger] plans[i], ids[i], secrets[i]),
    ensures
        forall|entry: (Seq<char>, Seq<char>)|
            #[trigger] remove_stale_secrets(apply_secret_plans(store, plans), ids).contains_key(entry)
                ==> ids.contains(entry.0),
        ids.len() == 0 ==> remove_stale_secrets(apply_secret_plans(store, plans), ids)
            == Map::<(Seq<char>, Seq<char>), Seq<char>>::empty(),
        forall|i: int|
            0 <= i < ids.len() ==> secrets_stored(
                remove_stale_secrets(apply_secret_plans(store, plans), ids),
                #[trigger] ids[i],
                secrets[i],
            ),
{
    let saved = apply_secret_plans(store, plans);
    let kept = remove_stale_secrets(saved, ids);
    lemma_apply_secret_plans(store, ids, secrets, plans);
    if ids.len() == 0 {
        assert(kept =~= Map::<(Seq<char>, Seq<char>), Seq<char>>::empty());
    }
    assert forall|i: int| 0 <= i < ids.len() implies secrets_stored(kept, #[trigger] ids[i], secrets[i]) by {
        assert(ids.contains(ids[i]));
        assert(secrets_stored(saved, ids[i], secrets[i]));
    }
}

/// Secrets stored as a save leaves them load back as they were saved, except
/// that an empty connection string loads as none.
pub proof fn law_stored_secrets_load_back(
    store: SecretStore,
    connection_id: Seq<char>,
    secrets: ConnectionSecrets,
    loaded: ConnectionSecrets,
)
    requires
        secrets_stored(store, connection_id, secrets),
        secrets_loaded_from(
            loaded,
            stored_secret(store, connection_id, password_key()),
            stored_secret(store, connection_id, ssh_password_key()),
            stored_secret(store, connection_id, ssh_key_passphrase_key()),
            stored_secret(store, connection_id, proxy_password_key()),
            stored_secret(store, connection_id, connection_string_key()),
        ),
    ensures
        loaded.password@ == secrets.password@,
        loaded.ssh_password@ == secrets.ssh_password@,
        loaded.ssh_key_passphrase@ == secrets.ssh_key_passphrase@,
        loaded.proxy_password@ == secrets.proxy_password@,
        text_of_option(loaded.connection_string) == match secrets.connection_string {
            Some(cs) => stored_form(cs@),
            None => None,
        },
{
    assert(secrets.password@.len() == 0 ==> secrets.password@ =~= Seq::<char>::empty());
    assert(secrets.ssh_password@.len() == 0 ==> secrets.ssh_password@ =~= Seq::<char>::empty());
    assert(secrets.ssh_key_passphrase@.len() == 0 ==> secrets.ssh_key_passphrase@ =~= Seq::<
        char,
    >::empty());
    assert(secrets.proxy_password@.len() == 0 ==> secrets.proxy_password@ =~= Seq::<
        char,
    >::empty());
}

/// The statement that removes the secrets of every connection that is no
/// longer saved; the ids of the saved connections are bound to its placeholders.
pub open spec fn stale_secrets_sql(retained: nat) -> Seq<char> {
    if retained == 0 {
        "DELETE FROM connection_secrets"@
    } else {
        "DELETE FROM connection_secrets WHERE connection_id NOT IN ("@ + placeholders(retained)
            + ")"@
    }
}

/// `count` placeholders separated by commas.
pub open spec fn placeholders(count: nat) -> Seq<char>
    decreases count,
{
    if count == 0 {
        Seq::empty()
    } else if count == 1 {
        "?"@
    } else {
        placeholders((count - 1) as nat) + ","@ + "?"@
    }
}

/// `list` is `count` question marks separated by commas: `?`, `?,?`, ...
pub open spec fn is_placeholder_list(list: Seq<char>, count: nat) -> bool {
    &&& list.len() + 1 == 2 * count
    &&& forall|i: int| 0 <= i < list.len() ==> #[trigger] list[i] == if i % 2 == 0 {
        '?'
    } else {
        ','
    }
}

proof fn lemma_placeholders_list(count: nat)
    requires
        count > 0,
    ensures
        is_placeholder_list(placeholders(count), count),
    decreases count,
{
    reveal_strlit("?");
    reveal_strlit(",");
    if count > 1 {
        lemma_placeholders_list((count - 1) as nat);
        let before = placeholders((count - 1) as nat);
        let after = placeholders(count);
        assert(after == before + ","@ + "?"@);
        assert forall|i: int| 0 <= i < after.len() implies #[trigger] after[i] == if i % 2 == 0 {
            '?'
        } else {
            ','
        } by {
            if i < before.len() {
                assert(after[i] == before[i]);
            } else if i == before.len() {
                assert(after[i] == ',');
                assert(i % 2 == 1);
            } else {
                assert(after[i] == '?');
                assert(i % 2 == 0);
            }
        }
    }
}

/// The statement removes the secrets of every connection whose id is not
/// among the saved ones: with no connection saved it deletes every secret,
/// and with `n` saved it keeps the rows whose connection id is `NOT IN` a
/// list of exactly `n` placeholders, one for each saved id. A secret row thus
/// survives exactly when its connection is one of those saved, as
/// `remove_stale_secrets` describes.
pub proof fn law_stale_secrets_statement_shape(retained: nat)
    ensures
        retained == 0 ==> stale_secrets_sql(retained) == "DELETE FROM connection_secrets"@,
        retained > 0 ==> exists|list: Seq<char>|
            #[trigger] is_placeholder_list(list, retained) && stale_secrets_sql(retained)
                == "DELETE FROM connection_secrets WHERE connection_id NOT IN ("@ + list + ")"@,
{
    if retained > 0 {
        lemma_placeholders_list(retained);
        assert(is_placeholder_list(placeholders(retained), retained));
    }
}

/// The statement that removes the secrets of connections that are no longer
/// saved, when `retained` connections are.
pub fn stale_secrets_statement(retained: usize) -> (r: String)
    ensures
        r@ == stale_secrets_sql(retained as nat),
        retained == 0 ==> r@ == "DELETE FROM connection_secrets"@,
        retained > 0 ==> exists|list: Seq<char>|
            #[trigger] is_placeholder_list(list, retained as nat) && r@
                == "DELETE FROM connection_secrets WHERE connection_id NOT IN ("@ + list + ")"@,
{
    proof {
        law_stale_secrets_statement_shape(retained as nat);
    }
    if retained == 0 {
        return String::from_str("DELETE FROM connection_secrets");
    }
    let mut list = String::from_str("?");
    let mut i: usize = 1;
    while i < retained
        invariant
            1 <= i <= retained,
            list@ == placeholders(i as nat),
        decreases retained - i,
    {
        list.append(",");
        list.append("?");
        i = i + 1;
    }
    let mut sql = String::from_str("DELETE FROM connection_secrets WHERE connection_id NOT IN (");
    sql.append(list.as_str());
    sql.append(")");
    sql
}

} // verus!
