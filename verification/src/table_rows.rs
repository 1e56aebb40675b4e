//! Rows of the command table, proved from the spelling of its words.

use crate::command::{command_name, takes_subcommand, upper, word};
use crate::error::ErrorModel;
use crate::pipeline::{lemma_same_route_is_kept, pipeline_route};
use crate::routing::{
    is_all_masters, is_all_nodes, is_key_at_two, is_readonly, is_readonly_collection,
    is_readonly_plain, is_readonly_sorted, is_unroutable, route_for, shape_of, Route, Shape,
    SlotAddr,
};
use crate::slot::key_slot;
use vstd::prelude::*;
use vstd::string::{is_ascii, is_ascii_spec_bytes};

verus! {

/// True for the names of three commands that write to the key in their
/// first argument: `RPUSH`, `LTRIM` and `EXPIRE`.
pub open spec fn writes_first_key(name: Seq<u8>) -> bool {
    name == word("RPUSH") || name == word("LTRIM") || name == word("EXPIRE")
}

/// The length of a word of ASCII letters, and two of its bytes: enough to
/// tell the words of the table from `RPUSH`, `LTRIM` and `EXPIRE`.
proof fn lemma_word(text: &str)
    requires
        is_ascii(text),
    ensures
        word(text).len() == text@.len(),
        text@.len() > 0 ==> word(text)[0] == text@[0] as u8,
        text@.len() > 2 ==> word(text)[2] == text@[2] as u8,
{
    is_ascii_spec_bytes(text);
}

/// How the three names are spelled.
proof fn lemma_the_three_names()
    ensures
        word("RPUSH").len() == 5 && word("RPUSH")[0] == 0x52 && word("RPUSH")[2] == 0x55,
        word("LTRIM").len() == 5 && word("LTRIM")[0] == 0x4c && word("LTRIM")[2] == 0x52,
        word("EXPIRE").len() == 6 && word("EXPIRE")[0] == 0x45 && word("EXPIRE")[2] == 0x50,
{
    reveal_strlit("RPUSH");
    lemma_word("RPUSH");
    reveal_strlit("LTRIM");
    lemma_word("LTRIM");
    reveal_strlit("EXPIRE");
    lemma_word("EXPIRE");
}

/// None of the three goes to every primary.
proof fn lemma_not_for_all_masters(name: Seq<u8>)
    requires
        writes_first_key(name),
    ensures
        !is_all_masters(name),
{
    lemma_the_three_names();
    reveal_strlit("RANDOMKEY");
    lemma_word("RANDOMKEY");
    reveal_strlit("KEYS");
    lemma_word("KEYS");
    reveal_strlit("SCRIPT EXISTS");
    lemma_word("SCRIPT EXISTS");
    reveal_strlit("WAIT");
    lemma_word("WAIT");
    reveal_strlit("DBSIZE");
    lemma_word("DBSIZE");
    reveal_strlit("FLUSHALL");
    lemma_word("FLUSHALL");
    reveal_strlit("FUNCTION RESTORE");
    lemma_word("FUNCTION RESTORE");
    reveal_strlit("FUNCTION DELETE");
    lemma_word("FUNCTION DELETE");
    reveal_strlit("FUNCTION FLUSH");
    lemma_word("FUNCTION FLUSH");
    reveal_strlit("FUNCTION LOAD");
    lemma_word("FUNCTION LOAD");
    reveal_strlit("FLUSHDB");
    lemma_word("FLUSHDB");
    reveal_strlit("MEMORY PURGE");
    lemma_word("MEMORY PURGE");
    reveal_strlit("FUNCTION KILL");
    lemma_word("FUNCTION KILL");
    reveal_strlit("SCRIPT KILL");
    lemma_word("SCRIPT KILL");
    reveal_strlit("SCRIPT LOAD");
    lemma_word("SCRIPT LOAD");
    reveal_strlit("FUNCTION STATS");
    lemma_word("FUNCTION STATS");
    reveal_strlit("MEMORY MALLOC-STATS");
    lemma_word("MEMORY MALLOC-STATS");
    reveal_strlit("MEMORY DOCTOR");
    lemma_word("MEMORY DOCTOR");
    reveal_strlit("MEMORY STATS");
    lemma_word("MEMORY STATS");
    reveal_strlit("INFO");
    lemma_word("INFO");
}

/// None of the three goes to every node.
proof fn lemma_not_for_all_nodes(name: Seq<u8>)
    requires
        writes_first_key(name),
    ensures
        !is_all_nodes(name),
{
    lemma_the_three_names();
    reveal_strlit("SLOWLOG GET");
    lemma_word("SLOWLOG GET");
    reveal_strlit("SLOWLOG LEN");
    lemma_word("SLOWLOG LEN");
    reveal_strlit("SLOWLOG RESET");
    lemma_word("SLOWLOG RESET");
    reveal_strlit("CONFIG SET");
    lemma_word("CONFIG SET");
    reveal_strlit("CONFIG RESETSTAT");
    lemma_word("CONFIG RESETSTAT");
    reveal_strlit("CONFIG REWRITE");
    lemma_word("CONFIG REWRITE");
    reveal_strlit("SCRIPT FLUSH");
    lemma_word("SCRIPT FLUSH");
    reveal_strlit("LATENCY RESET");
    lemma_word("LATENCY RESET");
    reveal_strlit("LATENCY GRAPH");
    lemma_word("LATENCY GRAPH");
    reveal_strlit("LATENCY HISTOGRAM");
    lemma_word("LATENCY HISTOGRAM");
    reveal_strlit("LATENCY HISTORY");
    lemma_word("LATENCY HISTORY");
    reveal_strlit("LATENCY DOCTOR");
    lemma_word("LATENCY DOCTOR");
    reveal_strlit("LATENCY LATEST");
    lemma_word("LATENCY LATEST");
}

/// None of the three is refused.
proof fn lemma_not_unroutable(name: Seq<u8>)
    requires
        writes_first_key(name),
    ensures
        !is_unroutable(name),
{
    lemma_the_three_names();
    reveal_strlit("SCAN");
    lemma_word("SCAN");
    reveal_strlit("SHUTDOWN");
    lemma_word("SHUTDOWN");
    reveal_strlit("SLAVEOF");
    lemma_word("SLAVEOF");
    reveal_strlit("REPLICAOF");
    lemma_word("REPLICAOF");
    reveal_strlit("MOVE");
    lemma_word("MOVE");
    reveal_strlit("BITOP");
    lemma_word("BITOP");
}

/// None of the three has its key in the second argument.
proof fn lemma_not_keyed_at_two(name: Seq<u8>)
    requires
        writes_first_key(name),
    ensures
        !is_key_at_two(name),
{
    lemma_the_three_names();
    reveal_strlit("XGROUP CREATE");
    lemma_word("XGROUP CREATE");
    reveal_strlit("XGROUP CREATECONSUMER");
    lemma_word("XGROUP CREATECONSUMER");
    reveal_strlit("XGROUP DELCONSUMER");
    lemma_word("XGROUP DELCONSUMER");
    reveal_strlit("XGROUP DESTROY");
    lemma_word("XGROUP DESTROY");
    reveal_strlit("XGROUP SETID");
    lemma_word("XGROUP SETID");
    reveal_strlit("XINFO CONSUMERS");
    lemma_word("XINFO CONSUMERS");
    reveal_strlit("XINFO GROUPS");
    lemma_word("XINFO GROUPS");
    reveal_strlit("XINFO STREAM");
    lemma_word("XINFO STREAM");
}

/// None of the three only reads a string, bits or keys.
proof fn lemma_not_a_plain_read(name: Seq<u8>)
    requires
        writes_first_key(name),
    ensures
        !is_readonly_plain(name),
{
    lemma_the_three_names();
    reveal_strlit("BITCOUNT");
    lemma_word("BITCOUNT");
    reveal_strlit("BITFIELD_RO");
    lemma_word("BITFIELD_RO");
    reveal_strlit("BITPOS");
    lemma_word("BITPOS");
    reveal_strlit("DBSIZE");
    lemma_word("DBSIZE");
    reveal_strlit("DUMP");
    lemma_word("DUMP");
    reveal_strlit("EVALSHA_RO");
    lemma_word("EVALSHA_RO");
    reveal_strlit("EVAL_RO");
    lemma_word("EVAL_RO");
    reveal_strlit("EXISTS");
    lemma_word("EXISTS");
    reveal_strlit("EXPIRETIME");
    lemma_word("EXPIRETIME");
    reveal_strlit("FCALL_RO");
    lemma_word("FCALL_RO");
    reveal_strlit("GET");
    lemma_word("GET");
    reveal_strlit("GETBIT");
    lemma_word("GETBIT");
    reveal_strlit("GETRANGE");
    lemma_word("GETRANGE");
    reveal_strlit("KEYS");
    lemma_word("KEYS");
    reveal_strlit("LCS");
    lemma_word("LCS");
    reveal_strlit("LOLWUT");
    lemma_word("LOLWUT");
    reveal_strlit("MEMORY USAGE");
    lemma_word("MEMORY USAGE");
    reveal_strlit("MGET");
    lemma_word("MGET");
    reveal_strlit("OBJECT ENCODING");
    lemma_word("OBJECT ENCODING");
    reveal_strlit("OBJECT FREQ");
    lemma_word("OBJECT FREQ");
    reveal_strlit("OBJECT IDLETIME");
    lemma_word("OBJECT IDLETIME");
    reveal_strlit("OBJECT REFCOUNT");
    lemma_word("OBJECT REFCOUNT");
    reveal_strlit("PEXPIRETIME");
    lemma_word("PEXPIRETIME");
    reveal_strlit("PFCOUNT");
    lemma_word("PFCOUNT");
    reveal_strlit("PTTL");
    lemma_word("PTTL");
    reveal_strlit("RANDOMKEY");
    lemma_word("RANDOMKEY");
    reveal_strlit("SCAN");
    lemma_word("SCAN");
    reveal_strlit("SORT_RO");
    lemma_word("SORT_RO");
    reveal_strlit("STRLEN");
    lemma_word("STRLEN");
    reveal_strlit("SUBSTR");
    lemma_word("SUBSTR");
    reveal_strlit("TOUCH");
    lemma_word("TOUCH");
    reveal_strlit("TTL");
    lemma_word("TTL");
    reveal_strlit("TYPE");
    lemma_word("TYPE");
}

/// None of the three only reads a geo index, hash, list or set.
proof fn lemma_not_a_collection_read(name: Seq<u8>)
    requires
        writes_first_key(name),
    ensures
        !is_readonly_collection(name),
{
    lemma_the_three_names();
    reveal_strlit("GEODIST");
    lemma_word("GEODIST");
    reveal_strlit("GEOHASH");
    lemma_word("GEOHASH");
    reveal_strlit("GEOPOS");
    lemma_word("GEOPOS");
    reveal_strlit("GEORADIUSBYMEMBER_RO");
    lemma_word("GEORADIUSBYMEMBER_RO");
    reveal_strlit("GEORADIUS_RO");
    lemma_word("GEORADIUS_RO");
    reveal_strlit("GEOSEARCH");
    lemma_word("GEOSEARCH");
    reveal_strlit("HEXISTS");
    lemma_word("HEXISTS");
    reveal_strlit("HGET");
    lemma_word("HGET");
    reveal_strlit("HGETALL");
    lemma_word("HGETALL");
    reveal_strlit("HKEYS");
    lemma_word("HKEYS");
    reveal_strlit("HLEN");
    lemma_word("HLEN");
    reveal_strlit("HMGET");
    lemma_word("HMGET");
    reveal_strlit("HRANDFIELD");
    lemma_word("HRANDFIELD");
    reveal_strlit("HSCAN");
    lemma_word("HSCAN");
    reveal_strlit("HSTRLEN");
    lemma_word("HSTRLEN");
    reveal_strlit("HVALS");
    lemma_word("HVALS");
    reveal_strlit("LINDEX");
    lemma_word("LINDEX");
    reveal_strlit("LLEN");
    lemma_word("LLEN");
    reveal_strlit("LPOS");
    lemma_word("LPOS");
    reveal_strlit("LRANGE");
    lemma_word("LRANGE");
    reveal_strlit("SCARD");
    lemma_word("SCARD");
    reveal_strlit("SDIFF");
    lemma_word("SDIFF");
    reveal_strlit("SINTER");
    lemma_word("SINTER");
    reveal_strlit("SINTERCARD");
    lemma_word("SINTERCARD");
    reveal_strlit("SISMEMBER");
    lemma_word("SISMEMBER");
    reveal_strlit("SMEMBERS");
    lemma_word("SMEMBERS");
    reveal_strlit("SMISMEMBER");
    lemma_word("SMISMEMBER");
    reveal_strlit("SRANDMEMBER");
    lemma_word("SRANDMEMBER");
    reveal_strlit("SSCAN");
    lemma_word("SSCAN");
    reveal_strlit("SUNION");
    lemma_word("SUNION");
}

/// None of the three only reads a stream or sorted set.
proof fn lemma_not_a_sorted_read(name: Seq<u8>)
    requires
        writes_first_key(name),
    ensures
        !is_readonly_sorted(name),
{
    lemma_the_three_names();
    reveal_strlit("XINFO CONSUMERS");
    lemma_word("XINFO CONSUMERS");
    reveal_strlit("XINFO GROUPS");
    lemma_word("XINFO GROUPS");
    reveal_strlit("XINFO STREAM");
    lemma_word("XINFO STREAM");
    reveal_strlit("XLEN");
    lemma_word("XLEN");
    reveal_strlit("XPENDING");
    lemma_word("XPENDING");
    reveal_strlit("XRANGE");
    lemma_word("XRANGE");
    reveal_strlit("XREAD");
    lemma_word("XREAD");
    reveal_strlit("XREVRANGE");
    lemma_word("XREVRANGE");
    reveal_strlit("ZCARD");
    lemma_word("ZCARD");
    reveal_strlit("ZCOUNT");
    lemma_word("ZCOUNT");
    reveal_strlit("ZDIFF");
    lemma_word("ZDIFF");
    reveal_strlit("ZINTER");
    lemma_word("ZINTER");
    reveal_strlit("ZINTERCARD");
    lemma_word("ZINTERCARD");
    reveal_strlit("ZLEXCOUNT");
    lemma_word("ZLEXCOUNT");
    reveal_strlit("ZMSCORE");
    lemma_word("ZMSCORE");
    reveal_strlit("ZRANDMEMBER");
    lemma_word("ZRANDMEMBER");
    reveal_strlit("ZRANGE");
    lemma_word("ZRANGE");
    reveal_strlit("ZRANGEBYLEX");
    lemma_word("ZRANGEBYLEX");
    reveal_strlit("ZRANGEBYSCORE");
    lemma_word("ZRANGEBYSCORE");
    reveal_strlit("ZRANK");
    lemma_word("ZRANK");
    reveal_strlit("ZREVRANGE");
    lemma_word("ZREVRANGE");
    reveal_strlit("ZREVRANGEBYLEX");
    lemma_word("ZREVRANGEBYLEX");
    reveal_strlit("ZREVRANGEBYSCORE");
    lemma_word("ZREVRANGEBYSCORE");
    reveal_strlit("ZREVRANK");
    lemma_word("ZREVRANK");
    reveal_strlit("ZSCAN");
    lemma_word("ZSCAN");
    reveal_strlit("ZSCORE");
    lemma_word("ZSCORE");
    reveal_strlit("ZUNION");
    lemma_word("ZUNION");
}

/// None of the three takes a second word into its name.
proof fn lemma_takes_no_subcommand(name: Seq<u8>)
    requires
        writes_first_key(name),
    ensures
        !takes_subcommand(name),
{
    lemma_the_three_names();
    reveal_strlit("XGROUP");
    lemma_word("XGROUP");
    reveal_strlit("OBJECT");
    lemma_word("OBJECT");
    reveal_strlit("SLOWLOG");
    lemma_word("SLOWLOG");
    reveal_strlit("FUNCTION");
    lemma_word("FUNCTION");
    reveal_strlit("MODULE");
    lemma_word("MODULE");
    reveal_strlit("COMMAND");
    lemma_word("COMMAND");
    reveal_strlit("PUBSUB");
    lemma_word("PUBSUB");
    reveal_strlit("CONFIG");
    lemma_word("CONFIG");
    reveal_strlit("MEMORY");
    lemma_word("MEMORY");
    reveal_strlit("XINFO");
    lemma_word("XINFO");
    reveal_strlit("CLIENT");
    lemma_word("CLIENT");
    reveal_strlit("ACL");
    lemma_word("ACL");
    reveal_strlit("SCRIPT");
    lemma_word("SCRIPT");
    reveal_strlit("CLUSTER");
    lemma_word("CLUSTER");
    reveal_strlit("LATENCY");
    lemma_word("LATENCY");
}

/// None of the three is a command that the table treats by its own rule.
proof fn lemma_no_rule_of_its_own(name: Seq<u8>)
    requires
        writes_first_key(name),
    ensures
        name != word("PING") && name != word("MGET") && name != word("DEL") && name != word("EXISTS") && name != word("UNLINK") && name != word("TOUCH") && name != word("MSET") && name != word("EVALSHA") && name != word("EVAL") && name != word("XREAD") && name != word("XREADGROUP"),
{
    lemma_the_three_names();
    reveal_strlit("PING");
    lemma_word("PING");
    reveal_strlit("MGET");
    lemma_word("MGET");
    reveal_strlit("DEL");
    lemma_word("DEL");
    reveal_strlit("EXISTS");
    lemma_word("EXISTS");
    reveal_strlit("UNLINK");
    lemma_word("UNLINK");
    reveal_strlit("TOUCH");
    lemma_word("TOUCH");
    reveal_strlit("MSET");
    lemma_word("MSET");
    reveal_strlit("EVALSHA");
    lemma_word("EVALSHA");
    reveal_strlit("EVAL");
    lemma_word("EVAL");
    reveal_strlit("XREAD");
    lemma_word("XREAD");
    reveal_strlit("XREADGROUP");
    lemma_word("XREADGROUP");
}

/// Each of the three has its key in the first argument.
proof fn lemma_shape_of_key_writes(name: Seq<u8>)
    requires
        writes_first_key(name),
    ensures
        shape_of(name) == Shape::KeyAtOne,
{
    reveal(shape_of);
    lemma_not_for_all_masters(name);
    lemma_not_for_all_nodes(name);
    lemma_not_unroutable(name);
    lemma_not_keyed_at_two(name);
    lemma_no_rule_of_its_own(name);
}

/// None of the three is a read.
proof fn lemma_key_writes_are_no_reads(name: Seq<u8>)
    requires
        writes_first_key(name),
    ensures
        !is_readonly(name),
{
    reveal(is_readonly);
    lemma_not_a_plain_read(name);
    lemma_not_a_collection_read(name);
    lemma_not_a_sorted_read(name);
}

/// `RPUSH`, `LTRIM` and `EXPIRE`, in whatever case their name is written,
/// are routed by their first argument to the primary of its slot.
pub proof fn lemma_key_writes_go_to_the_primary(args: Seq<Seq<u8>>)
    requires
        args.len() > 1,
        writes_first_key(upper(args[0])),
    ensures
        route_for(args) == Some(Route(key_slot(args[1]), SlotAddr::Master)),
{
    let name = upper(args[0]);
    lemma_takes_no_subcommand(name);
    assert(command_name(args) == Some(name));
    lemma_shape_of_key_writes(name);
    lemma_key_writes_are_no_reads(name);
}

/// Pipeline same slot: a pipeline of `RPUSH`, `LTRIM` and `EXPIRE` commands
/// on one key is accepted and goes to the primary of the slot of that key.
pub proof fn lemma_writes_to_one_key_stay_together(pipeline: Seq<Seq<Seq<u8>>>, key: Seq<u8>)
    requires
        pipeline.len() > 0,
        forall|i: int|
            0 <= i < pipeline.len() ==> (#[trigger] pipeline[i]).len() > 1 && writes_first_key(
                upper(pipeline[i][0]),
            ) && pipeline[i][1] == key,
    ensures
        pipeline_route(pipeline) == Ok::<Option<Route>, ErrorModel>(
            Some(Route(key_slot(key), SlotAddr::Master)),
        ),
{
    let route = Route(key_slot(key), SlotAddr::Master);
    assert forall|i: int| 0 <= i < pipeline.len() implies #[trigger] route_for(pipeline[i])
        == Some(route) by {
        lemma_key_writes_go_to_the_primary(pipeline[i]);
    }
    lemma_same_route_is_kept(pipeline, route);
}

} // verus!
