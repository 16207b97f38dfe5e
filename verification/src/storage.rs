//! Each plugin's own key-value store: keys are strings, values JSON text.
use vstd::prelude::*;
use crate::json::{json_quoted, json_string};
use crate::keyed::{has_key, lemma_record_at, lemma_same_keys_same_order, Keyed, KeyedList};
use crate::manifest::{byte_count, byte_len};
use crate::text::{chars_of, extend_chars, join, join_chars, str_eq, string_of, views};

verus! {

/// The most bytes a plugin's stored JSON may take.
pub const MAX_STORAGE: usize = 65536;

/// One stored value: its key, and the value as JSON text.
pub struct Entry {
    pub key: String,
    pub value: String,
}

impl Keyed for Entry {
    open spec fn key_view(&self) -> Seq<char> {
        self.key@
    }

    fn key(&self) -> (r: &String) {
        &self.key
    }
}

/// A plugin's stored values, kept in key order.
pub struct PluginStore {
    pub list: KeyedList<Entry>,
}

/// The JSON text of a value that is absent.
pub open spec fn null_json() -> Seq<char> {
    seq!['n', 'u', 'l', 'l']
}

/// One stored pair as a member of a JSON object.
pub open spec fn member(e: Entry) -> Seq<char> {
    json_quoted(e.key@) + seq![':'] + e.value@
}

/// The JSON object that holds the entries, in their order.
pub open spec fn encode(entries: Seq<Entry>) -> Seq<char> {
    seq!['{'] + join(entries.map_values(|e: Entry| member(e)), seq![',']) + seq!['}']
}

/// What the storage API can do.
#[derive(Clone, Copy, PartialEq, Eq, Structural)]
pub enum StorageOp {
    /// `get`
    Read,
    /// `set`
    Write,
    /// `remove`
    Delete,
    /// `clear`
    Wipe,
}

/// The operation that `op` names.
pub open spec fn op_named(op: Seq<char>) -> Option<StorageOp> {
    if op == "get"@ {
        Some(StorageOp::Read)
    } else if op == "set"@ {
        Some(StorageOp::Write)
    } else if op == "remove"@ {
        Some(StorageOp::Delete)
    } else if op == "clear"@ {
        Some(StorageOp::Wipe)
    } else {
        None
    }
}

/// The stored values after `op` on `key` with `value` (JSON text).
pub open spec fn after_op(
    m: Map<Seq<char>, Seq<char>>,
    op: StorageOp,
    key: Seq<char>,
    value: Seq<char>,
) -> Map<Seq<char>, Seq<char>> {
    match op {
        StorageOp::Read => m,
        StorageOp::Write => m.insert(key, value),
        StorageOp::Delete => m.remove(key),
        StorageOp::Wipe => Map::empty(),
    }
}

/// What `op` on `key` answers (JSON text): the stored value for `get`, and
/// `null` otherwise or when nothing is stored under `key`.
pub open spec fn answer(m: Map<Seq<char>, Seq<char>>, op: StorageOp, key: Seq<char>) -> Seq<
    char,
> {
    if op == StorageOp::Read && m.contains_key(key) {
        m[key]
    } else {
        null_json()
    }
}

/// A storage key: 1 to 128 bytes.
pub open spec fn key_ok(key: Seq<char>) -> bool {
    key.len() > 0 && byte_len(key) <= 128
}

/// The outcome of a storage request that succeeded.
pub struct StorageReply {
    /// The answer, as JSON text.
    pub value: String,
    /// The stored values afterwards.
    pub store: PluginStore,
    /// The stored values as the JSON text to write back.
    pub body: String,
}

impl PluginStore {
    pub open spec fn wf(&self) -> bool {
        self.list.wf()
    }

    /// The stored values by key.
    pub open spec fn contents(&self) -> Map<Seq<char>, Seq<char>> {
        self.list.map().map_values(|e: Entry| e.value@)
    }

    /// An empty store.
    pub fn new() -> (r: Self)
        ensures
            r.wf(),
            r.contents() == Map::<Seq<char>, Seq<char>>::empty(),
    {
        let r = PluginStore { list: KeyedList::new() };
        assert(r.contents() =~= Map::<Seq<char>, Seq<char>>::empty());
        r
    }

    proof fn lemma_contents_insert(&self, old_store: &Self, e: Entry)
        requires
            self.list.map() == old_store.list.map().insert(e.key@, e),
        ensures
            self.contents() == old_store.contents().insert(e.key@, e.value@),
    {
        assert(self.contents() =~= old_store.contents().insert(e.key@, e.value@));
    }

    /// Stores `value` (JSON text) under `key`.
    pub fn insert(&mut self, key: String, value: String)
        requires
            old(self).wf(),
        ensures
            final(self).wf(),
            final(self).contents() == old(self).contents().insert(key@, value@),
    {
        let ghost before = *self;
        let e = Entry { key, value };
        let ghost eg = e;
        self.list.upsert(e);
        proof {
            self.lemma_contents_insert(&before, eg);
        }
    }

    /// The value stored under `key`, or `null`, as JSON text.
    pub fn lookup(&self, key: &String) -> (r: String)
        requires
            self.wf(),
        ensures
            r@ == (if self.contents().contains_key(key@) {
                self.contents()[key@]
            } else {
                null_json()
            }),
    {
        match self.list.get(key) {
            Some(e) => e.value.clone(),
            None => null(),
        }
    }

    /// The stored values as a JSON object, in key order.
    pub fn to_json(&self) -> (r: String)
        ensures
            r@ == encode(self.list@),
    {
        let items = self.list.items();
        let mut members: Vec<Vec<char>> = Vec::new();
        let mut i: usize = 0;
        while i < items.len()
            invariant
                i <= items@.len(),
                items@ == self.list@,
                views(members@) == items@.take(i as int).map_values(|e: Entry| member(e)),
            decreases items@.len() - i,
        {
            let e = &items[i];
            let mut m = chars_of(json_string(e.key.as_str()).as_str());
            m.push(':');
            extend_chars(&mut m, &chars_of(e.value.as_str()));
            assert(m@ =~= member(items@[i as int]));
            let ghost before = views(members@);
            members.push(m);
            assert(views(members@) =~= before.push(member(items@[i as int])));
            assert(items@.take(i + 1) =~= items@.take(i as int).push(items@[i as int]));
            assert(views(members@) =~= items@.take(i + 1).map_values(|e: Entry| member(e)));
            i += 1;
        }
        assert(items@.take(items@.len() as int) =~= items@);
        let sep = vec![','];
        assert(sep@ =~= seq![',']);
        let joined = join_chars(&members, &sep);
        let mut out = vec!['{'];
        extend_chars(&mut out, &joined);
        out.push('}');
        assert(out@ =~= encode(self.list@));
        string_of(&out)
    }
}

fn null() -> (r: String)
    ensures
        r@ == null_json(),
{
    let mut s = String::new();
    crate::text::push_char(&mut s, 'n');
    crate::text::push_char(&mut s, 'u');
    crate::text::push_char(&mut s, 'l');
    crate::text::push_char(&mut s, 'l');
    assert(s@ =~= null_json());
    s
}

/// The storage operation that `op` names.
pub fn parse_op(op: &str) -> (r: Option<StorageOp>)
    ensures
        r == op_named(op@),
{
    if str_eq(op, "get") {
        Some(StorageOp::Read)
    } else if str_eq(op, "set") {
        Some(StorageOp::Write)
    } else if str_eq(op, "remove") {
        Some(StorageOp::Delete)
    } else if str_eq(op, "clear") {
        Some(StorageOp::Wipe)
    } else {
        None
    }
}

/// The message of the error that a storage request on `key` (absent: the
/// empty key) with operation `op` meets before it touches the store, if any.
pub open spec fn request_error(op: Seq<char>, key: Option<Seq<char>>) -> Option<Seq<char>> {
    let k = match key {
        Some(k) => k,
        None => Seq::<char>::empty(),
    };
    if !key_ok(k) {
        Some("invalid storage key"@)
    } else if op_named(op) is None {
        Some("unknown storage operation"@)
    } else {
        None
    }
}

/// Applies the storage request `op` to `store`: `get`, `set` (to `value`,
/// or `null` when absent), `remove` or `clear` the value under `key`. The
/// stored values must fit in `MAX_STORAGE` bytes of JSON afterwards.
pub fn apply_request(store: PluginStore, op: &str, key: Option<&str>, value: Option<String>) -> (r:
    Result<StorageReply, String>)
    requires
        store.wf(),
    ensures
        ({
            let k = match key {
                Some(k) => k@,
                None => Seq::<char>::empty(),
            };
            let v = match value {
                Some(v) => v@,
                None => null_json(),
            };
            match request_error(op@, match key {
                Some(k) => Some(k@),
                None => None,
            }) {
                Some(msg) => r matches Err(e) && e@ == msg,
                None => {
                    let o = op_named(op@)->0;
                    let m = after_op(store.contents(), o, k, v);
                    match r {
                        Ok(reply) => {
                            &&& reply.store.wf()
                            &&& reply.store.contents() == m
                            &&& reply.value@ == answer(store.contents(), o, k)
                            &&& reply.body@ == encode(reply.store.list@)
                            &&& byte_len(reply.body@) <= MAX_STORAGE
                        },
                        Err(e) => {
                            &&& e@ == "plugin storage limit is 64 KiB"@
                            &&& forall|s: PluginStore|
                                s.wf() && s.contents() == m ==> byte_len(encode(s.list@))
                                    > MAX_STORAGE
                        },
                    }
                },
            }
        }),
{
    let k = match key {
        Some(k) => k,
        None => {
            return Err(String::from_str("invalid storage key"));
        },
    };
    if k.is_empty() || byte_count(k) > 128 {
        return Err(String::from_str("invalid storage key"));
    }
    let o = match parse_op(op) {
        Some(o) => o,
        None => {
            return Err(String::from_str("unknown storage operation"));
        },
    };
    let key_string = String::from_str(k);
    let ghost old_contents = store.contents();
    let ghost v_spec = match &value {
        Some(v) => v@,
        None => null_json(),
    };
    let mut store = store;
    let answer_text = match o {
        StorageOp::Read => store.lookup(&key_string),
        StorageOp::Write => {
            let v = match value {
                Some(v) => v,
                None => null(),
            };
            store.insert(key_string, v);
            null()
        },
        StorageOp::Delete => {
            let ghost before = store;
            let _ = store.list.remove(&key_string);
            assert(store.contents() =~= before.contents().remove(k@));
            null()
        },
        StorageOp::Wipe => {
            store.list.clear();
            assert(store.contents() =~= Map::<Seq<char>, Seq<char>>::empty());
            null()
        },
    };
    let body = store.to_json();
    assert(store.contents() == after_op(old_contents, o, k@, v_spec));
    if byte_count(body.as_str()) > MAX_STORAGE {
        proof {
            assert forall|s: PluginStore|
                s.wf() && s.contents() == store.contents() implies byte_len(encode(s.list@))
                > MAX_STORAGE by {
                lemma_same_contents_same_list(s, store);
            }
        }
        return Err(String::from_str("plugin storage limit is 64 KiB"));
    }
    Ok(StorageReply { value: answer_text, store, body })
}

/// A `get` after a `set` gives back the value that was set, and leaves other
/// keys as they were.
pub proof fn lemma_get_after_set(
    m: Map<Seq<char>, Seq<char>>,
    key: Seq<char>,
    value: Seq<char>,
    other: Seq<char>,
)
    ensures
        answer(after_op(m, StorageOp::Write, key, value), StorageOp::Read, key) == value,
        other != key ==> answer(after_op(m, StorageOp::Write, key, value), StorageOp::Read, other)
            == answer(m, StorageOp::Read, other),
{
}

/// A `get` after a `remove` of the same key, or after a `clear`, gives
/// `null`.
pub proof fn lemma_get_after_remove_or_clear(
    m: Map<Seq<char>, Seq<char>>,
    key: Seq<char>,
    value: Seq<char>,
    other: Seq<char>,
)
    ensures
        answer(after_op(m, StorageOp::Delete, key, value), StorageOp::Read, key) == null_json(),
        answer(after_op(m, StorageOp::Wipe, key, value), StorageOp::Read, other) == null_json(),
{
}

/// A `get` changes nothing, and every operation but `get` answers `null`.
pub proof fn lemma_get_is_read_only(
    m: Map<Seq<char>, Seq<char>>,
    op: StorageOp,
    key: Seq<char>,
    value: Seq<char>,
)
    ensures
        after_op(m, StorageOp::Read, key, value) == m,
        op != StorageOp::Read ==> answer(m, op, key) == null_json(),
{
}

/// Two well-formed stores with the same contents hold the same entries.
proof fn lemma_same_contents_same_list(a: PluginStore, b: PluginStore)
    requires
        a.wf(),
        b.wf(),
        a.contents() == b.contents(),
    ensures
        encode(a.list@) == encode(b.list@),
{
    let x = a.list@;
    let y = b.list@;
    assert forall|k: Seq<char>| has_key(x, k) <==> has_key(y, k) by {
        assert(a.contents().contains_key(k) == has_key(x, k));
        assert(b.contents().contains_key(k) == has_key(y, k));
    }
    lemma_same_keys_same_order(x, y);
    assert forall|i: int| 0 <= i < x.len() implies #[trigger] member(x[i]) == member(y[i]) by {
        lemma_record_at(x, i);
        lemma_record_at(y, i);
        let k = x[i].key_view();
        assert(a.contents()[k] == x[i].value@);
        assert(b.contents()[k] == y[i].value@);
    }
    assert(x.map_values(|e: Entry| member(e)) =~= y.map_values(|e: Entry| member(e)));
}

} // verus!
