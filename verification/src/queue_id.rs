//! Identifiers of the queues that hold the records of the shards.
use vstd::prelude::*;

verus! {

/// Identifies a node of the cluster.
pub type NodeId = String;

/// Identifies the consumer of a fetch stream.
pub type ClientId = String;

/// Identifies an index, across its incarnations.
pub type IndexUid = String;

/// Identifies a source of an index.
pub type SourceId = String;

/// Identifies a shard of a source.
pub type ShardId = u64;

/// Identifies the queue of a shard: `{index_uid}/{source_id}/{shard_id}`.
pub type QueueId = String;

/// The decimal digit of a number below ten.
pub open spec fn digit(n: nat) -> char {
    (48 + n) as char
}

/// A number in decimal notation, without leading zeros.
pub open spec fn decimal(n: nat) -> Seq<char>
    decreases n,
{
    if n < 10 {
        seq![digit(n)]
    } else {
        decimal(n / 10).push(digit(n % 10))
    }
}

/// The identifier of the queue of a shard.
pub open spec fn spec_queue_id(
    index_uid: Seq<char>,
    source_id: Seq<char>,
    shard_id: ShardId,
) -> Seq<char> {
    index_uid + seq!['/'] + source_id + seq!['/'] + decimal(shard_id as nat)
}

/// Returns the decimal digit of a number below ten.
fn digit_str(n: u64) -> (digit_str: &'static str)
    requires
        n < 10,
    ensures
        digit_str@ == seq![digit(n as nat)],
{
    proof {
        reveal_strlit("0");
        reveal_strlit("1");
        reveal_strlit("2");
        reveal_strlit("3");
        reveal_strlit("4");
        reveal_strlit("5");
        reveal_strlit("6");
        reveal_strlit("7");
        reveal_strlit("8");
        reveal_strlit("9");
    }
    let digit_str: &'static str = match n {
        0 => "0",
        1 => "1",
        2 => "2",
        3 => "3",
        4 => "4",
        5 => "5",
        6 => "6",
        7 => "7",
        8 => "8",
        _ => "9",
    };
    assert(digit_str@ =~= seq![digit(n as nat)]);
    digit_str
}

/// Appends a number in decimal notation to a string.
fn append_decimal(string: String, n: u64) -> (appended: String)
    ensures
        appended@ == string@ + decimal(n as nat),
    decreases n,
{
    if n < 10 {
        string.concat(digit_str(n))
    } else {
        let appended = append_decimal(string, n / 10).concat(digit_str(n % 10));
        assert(appended@ =~= string@ + decimal(n as nat));
        appended
    }
}

/// Returns the identifier of the queue of a shard.
pub fn queue_id(index_uid: &str, source_id: &str, shard_id: ShardId) -> (queue_id: QueueId)
    ensures
        queue_id@ == spec_queue_id(index_uid@, source_id@, shard_id),
{
    proof {
        reveal_strlit("/");
        assert("/"@ =~= seq!['/']);
    }
    let prefix = index_uid.to_owned().concat("/").concat(source_id).concat("/");
    append_decimal(prefix, shard_id)
}

/// Decimal notation has no slash.
proof fn lemma_decimal_has_no_slash(n: nat)
    ensures
        decimal(n).len() > 0,
        !decimal(n).contains('/'),
    decreases n,
{
    if n >= 10 {
        lemma_decimal_has_no_slash(n / 10);
    }
    assert forall|i: int| 0 <= i < decimal(n).len() implies decimal(n)[i] != '/' by {
        if n >= 10 && i < decimal(n).len() - 1 {
            assert(decimal(n)[i] == decimal(n / 10)[i]);
            assert(decimal(n / 10).contains(decimal(n / 10)[i]));
        }
    }
}

/// Decimal notation tells numbers apart.
proof fn lemma_decimal_is_injective(m: nat, n: nat)
    requires
        decimal(m) == decimal(n),
    ensures
        m == n,
    decreases m,
{
    lemma_decimal_has_no_slash(m / 10);
    lemma_decimal_has_no_slash(n / 10);
    assert(decimal(m).last() == decimal(n).last());
    assert(decimal(m).last() == digit(m % 10));
    assert(decimal(n).last() == digit(n % 10));
    assert(m % 10 == n % 10);
    if m >= 10 || n >= 10 {
        assert(decimal(m).len() == decimal(n).len());
        assert(decimal(m).drop_last() =~= decimal(m / 10));
        assert(decimal(n).drop_last() =~= decimal(n / 10));
        lemma_decimal_is_injective(m / 10, n / 10);
    }
}

/// What precedes and what follows the last slash of two equal strings are equal.
proof fn lemma_last_slash_splits(
    head: Seq<char>,
    tail: Seq<char>,
    other_head: Seq<char>,
    other_tail: Seq<char>,
)
    requires
        head + seq!['/'] + tail == other_head + seq!['/'] + other_tail,
        !tail.contains('/'),
        !other_tail.contains('/'),
    ensures
        head == other_head,
        tail == other_tail,
{
    let joined = head + seq!['/'] + tail;
    let other_joined = other_head + seq!['/'] + other_tail;
    assert(joined.len() == head.len() + 1 + tail.len());
    assert(joined.len() == other_head.len() + 1 + other_tail.len());
    assert(joined[head.len() as int] == '/');
    assert(other_joined[other_head.len() as int] == '/');
    if head.len() < other_head.len() {
        let i = other_head.len() - head.len() - 1;
        assert(tail[i] == joined[other_head.len() as int]);
        assert(tail.contains(tail[i]));
    }
    if other_head.len() < head.len() {
        let i = head.len() - other_head.len() - 1;
        assert(other_tail[i] == other_joined[head.len() as int]);
        assert(other_tail.contains(other_tail[i]));
    }
    assert(head =~= joined.take(head.len() as int));
    assert(other_head =~= other_joined.take(head.len() as int));
    assert(tail =~= joined.skip(head.len() as int + 1));
    assert(other_tail =~= other_joined.skip(head.len() as int + 1));
}

/// Shards of one source have different queues.
pub proof fn law_queue_ids_tell_shards_apart(
    index_uid: Seq<char>,
    source_id: Seq<char>,
    shard_id: ShardId,
    other_shard_id: ShardId,
)
    requires
        shard_id != other_shard_id,
    ensures
        spec_queue_id(index_uid, source_id, shard_id) != spec_queue_id(
            index_uid,
            source_id,
            other_shard_id,
        ),
{
    lemma_decimal_has_no_slash(shard_id as nat);
    lemma_decimal_has_no_slash(other_shard_id as nat);
    if spec_queue_id(index_uid, source_id, shard_id) == spec_queue_id(
        index_uid,
        source_id,
        other_shard_id,
    ) {
        let prefix = index_uid + seq!['/'] + source_id;
        lemma_last_slash_splits(
            prefix,
            decimal(shard_id as nat),
            prefix,
            decimal(other_shard_id as nat),
        );
        lemma_decimal_is_injective(shard_id as nat, other_shard_id as nat);
    }
}

/// Where source identifiers have no slash, a queue identifier determines its shard: the index, the
/// source and the number of the shard.
pub proof fn law_queue_id_is_injective(
    index_uid: Seq<char>,
    source_id: Seq<char>,
    shard_id: ShardId,
    other_index_uid: Seq<char>,
    other_source_id: Seq<char>,
    other_shard_id: ShardId,
)
    requires
        !source_id.contains('/'),
        !other_source_id.contains('/'),
        spec_queue_id(index_uid, source_id, shard_id) == spec_queue_id(
            other_index_uid,
            other_source_id,
            other_shard_id,
        ),
    ensures
        index_uid == other_index_uid,
        source_id == other_source_id,
        shard_id == other_shard_id,
{
    lemma_decimal_has_no_slash(shard_id as nat);
    lemma_decimal_has_no_slash(other_shard_id as nat);
    lemma_last_slash_splits(
        index_uid + seq!['/'] + source_id,
        decimal(shard_id as nat),
        other_index_uid + seq!['/'] + other_source_id,
        decimal(other_shard_id as nat),
    );
    lemma_decimal_is_injective(shard_id as nat, other_shard_id as nat);
    lemma_last_slash_splits(index_uid, source_id, other_index_uid, other_source_id);
}

} // verus!
