//! How much of the history and of the AI conversations is kept: the 1000 most
//! recent history entries and the 50 most recently updated conversations.

use vstd::prelude::*;
use vstd::set_lib::{lemma_len_subset, lemma_subset_equality};

verus! {

/// Text order: by character code, shorter first on a common prefix. SQLite
/// compares text by its UTF-8 bytes, which orders texts the same way.
pub open spec fn text_le(a: Seq<char>, b: Seq<char>) -> bool
    decreases a.len(),
{
    if a.len() == 0 {
        true
    } else if b.len() == 0 {
        false
    } else if (a[0] as u32) < (b[0] as u32) {
        true
    } else if a[0] == b[0] {
        text_le(a.drop_first(), b.drop_first())
    } else {
        false
    }
}

/// `after` is what keeping the `limit` newest rows of `before` leaves. Rows
/// are keyed by id and ordered by their time text; rows are only removed, as
/// many as exceed the limit, and no removed row is newer than a kept one (rows
/// of equal time may go either way). The retention statements below leave
/// the table in such a state.
pub open spec fn newest_kept(
    before: Map<Seq<char>, Seq<char>>,
    after: Map<Seq<char>, Seq<char>>,
    limit: nat,
) -> bool {
    &&& after.submap_of(before)
    &&& after.dom().len() == if before.dom().len() <= limit {
        before.dom().len()
    } else {
        limit
    }
    &&& forall|kept: Seq<char>, dropped: Seq<char>|
        #![trigger after.contains_key(kept), before.contains_key(dropped)]
        after.contains_key(kept) && before.contains_key(dropped) && !after.contains_key(dropped)
            ==> text_le(before[dropped], before[kept])
}

proof fn lemma_text_le_antisymmetric(a: Seq<char>, b: Seq<char>)
    requires
        text_le(a, b),
        text_le(b, a),
    ensures
        a == b,
    decreases a.len(),
{
    if a.len() > 0 && b.len() > 0 {
        if a[0] == b[0] {
            lemma_text_le_antisymmetric(a.drop_first(), b.drop_first());
            assert(a =~= seq![a[0]] + a.drop_first());
            assert(b =~= seq![b[0]] + b.drop_first());
        } else {
            assert((a[0] as u32) != (b[0] as u32));
        }
    }
}

/// When the rows do not exceed the limit, keeping the newest keeps them all.
pub proof fn law_retention_keeps_all_within_limit(
    before: Map<Seq<char>, Seq<char>>,
    after: Map<Seq<char>, Seq<char>>,
    limit: nat,
)
    requires
        before.dom().finite(),
        before.dom().len() <= limit,
        newest_kept(before, after, limit),
    ensures
        after == before,
{
    assert(after.dom().subset_of(before.dom()));
    lemma_len_subset(after.dom(), before.dom());
    lemma_subset_equality(after.dom(), before.dom());
    assert(after =~= before);
}

/// Keeping the newest never leaves more rows than the limit, and a row
/// strictly newer than every other row is kept whenever the limit is not zero.
pub proof fn law_retention_keeps_the_newest_row(
    before: Map<Seq<char>, Seq<char>>,
    after: Map<Seq<char>, Seq<char>>,
    limit: nat,
    newest: Seq<char>,
)
    requires
        before.dom().finite(),
        newest_kept(before, after, limit),
        limit > 0,
        before.contains_key(newest),
        forall|id: Seq<char>|
            #[trigger] before.contains_key(id) && id != newest ==> text_le(before[id], before[newest])
                && before[id] != before[newest],
    ensures
        after.dom().len() <= limit,
        after.contains_key(newest),
{
    if !after.contains_key(newest) {
        assert(before.dom().len() > 0) by {
            assert(before.dom().contains(newest));
        }
        assert(after.dom().len() > 0);
        lemma_len_subset(after.dom(), before.dom());
        let kept = after.dom().choose();
        assert(after.dom().contains(kept));
        assert(after.contains_key(kept));
        assert(before.contains_key(kept));
        assert(text_le(before[newest], before[kept]));
        assert(kept != newest);
        assert(text_le(before[kept], before[newest]) && before[kept] != before[newest]);
        lemma_text_le_antisymmetric(before[newest], before[kept]);
    }
}

/// How many history entries are kept.
pub open spec fn history_retention_limit() -> nat {
    1000
}

/// How many AI conversations are kept.
pub open spec fn conversation_retention_limit() -> nat {
    50
}

/// The history rows that retention leaves, each row's id mapped to its
/// `executed_at`: the 1000 most recently executed entries.
pub open spec fn history_retained(
    before: Map<Seq<char>, Seq<char>>,
    after: Map<Seq<char>, Seq<char>>,
) -> bool {
    newest_kept(before, after, history_retention_limit())
}

/// The conversation rows that retention leaves, each row's id mapped to its
/// `updated_at`: the 50 most recently updated conversations.
pub open spec fn conversations_retained(
    before: Map<Seq<char>, Seq<char>>,
    after: Map<Seq<char>, Seq<char>>,
) -> bool {
    newest_kept(before, after, conversation_retention_limit())
}

/// The character of a decimal digit.
pub open spec fn digit_char(d: nat) -> char {
    if d == 0 {
        '0'
    } else if d == 1 {
        '1'
    } else if d == 2 {
        '2'
    } else if d == 3 {
        '3'
    } else if d == 4 {
        '4'
    } else if d == 5 {
        '5'
    } else if d == 6 {
        '6'
    } else if d == 7 {
        '7'
    } else if d == 8 {
        '8'
    } else {
        '9'
    }
}

/// The decimal text of `n`.
pub open spec fn decimal_text(n: nat) -> Seq<char>
    decreases n,
{
    if n < 10 {
        seq![digit_char(n)]
    } else {
        decimal_text(n / 10).push(digit_char(n % 10))
    }
}

/// A statement that deletes every row of `table` except the `limit` rows that
/// come first when ordered by `time_column` from newest to oldest. Run on a
/// table whose rows are keyed by `id`, it leaves the table as `newest_kept`
/// describes, with `time_column` as each row's time.
pub open spec fn keep_newest_sql(table: Seq<char>, time_column: Seq<char>, limit: nat) -> Seq<char> {
    "DELETE FROM "@ + table + " WHERE id NOT IN (SELECT id FROM "@ + table + " ORDER BY "@
        + time_column + " DESC LIMIT "@ + decimal_text(limit) + ")"@
}

/// The statement run after each history save: it deletes every entry but the
/// 1000 most recently executed, leaving the table as `history_retained`
/// describes.
pub open spec fn history_retention_sql() -> Seq<char> {
    "DELETE FROM history WHERE id NOT IN (SELECT id FROM history ORDER BY executed_at DESC LIMIT 1000)"@
}

/// The statement run after each conversation save: it deletes every
/// conversation but the 50 most recently updated, leaving the table as
/// `conversations_retained` describes.
pub open spec fn ai_conversation_retention_sql() -> Seq<char> {
    "DELETE FROM ai_conversations WHERE id NOT IN (SELECT id FROM ai_conversations ORDER BY updated_at DESC LIMIT 50)"@
}

/// The history statement keeps the newest history rows by execution time, as
/// many as `history_retained` keeps; the conversation statement keeps the
/// newest conversations by update time, as many as `conversations_retained`
/// keeps.
pub proof fn law_retention_statements_keep_newest()
    ensures
        history_retention_sql() == keep_newest_sql(
            "history"@,
            "executed_at"@,
            history_retention_limit(),
        ),
        ai_conversation_retention_sql() == keep_newest_sql(
            "ai_conversations"@,
            "updated_at"@,
            conversation_retention_limit(),
        ),
{
    reveal_strlit("DELETE FROM ");
    reveal_strlit(" WHERE id NOT IN (SELECT id FROM ");
    reveal_strlit(" ORDER BY ");
    reveal_strlit(" DESC LIMIT ");
    reveal_strlit(")");
    reveal_strlit("history");
    reveal_strlit("executed_at");
    reveal_strlit("ai_conversations");
    reveal_strlit("updated_at");
    reveal_strlit(
        "DELETE FROM history WHERE id NOT IN (SELECT id FROM history ORDER BY executed_at DESC LIMIT 1000)",
    );
    reveal_strlit(
        "DELETE FROM ai_conversations WHERE id NOT IN (SELECT id FROM ai_conversations ORDER BY updated_at DESC LIMIT 50)",
    );
    reveal_with_fuel(decimal_text, 4);
    assert(decimal_text(1000) =~= seq!['1', '0', '0', '0']);
    assert(decimal_text(50) =~= seq!['5', '0']);
    assert(history_retention_sql() =~= keep_newest_sql(
        "history"@,
        "executed_at"@,
        history_retention_limit(),
    ));
    assert(ai_conversation_retention_sql() =~= keep_newest_sql(
        "ai_conversations"@,
        "updated_at"@,
        conversation_retention_limit(),
    ));
}

/// The statement that keeps only the 1000 most recent history entries.
pub fn history_retention_statement() -> (r: String)
    ensures
        r@ == history_retention_sql(),
{
    String::from_str(
        "DELETE FROM history WHERE id NOT IN (SELECT id FROM history ORDER BY executed_at DESC LIMIT 1000)",
    )
}

/// The statement that keeps only the 50 most recently updated AI conversations.
pub fn ai_conversation_retention_statement() -> (r: String)
    ensures
        r@ == ai_conversation_retention_sql(),
{
    String::from_str(
        "DELETE FROM ai_conversations WHERE id NOT IN (SELECT id FROM ai_conversations ORDER BY updated_at DESC LIMIT 50)",
    )
}

} // verus!
