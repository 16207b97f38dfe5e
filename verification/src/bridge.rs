//! Requests that plugin pages send through `window.RightPanel`: which are
//! granted, and what the host does for them.
use vstd::prelude::*;
use crate::manifest::Permission;
use crate::plugins::Manager;
use crate::storage::StorageOp;
use crate::text::{chars_of, str_eq};

verus! {

/// What the host does for a granted plugin request.
#[derive(Clone, Copy, PartialEq, Eq, Structural)]
pub enum BridgeCall {
    /// `storage.get`, `storage.set`, `storage.remove`, `storage.clear`
    Storage(StorageOp),
    /// `clipboard.read`
    ClipboardRead,
    /// `clipboard.write`
    ClipboardWrite,
    /// `system.openUrl` with an http(s) URL
    OpenUrl,
    /// `ui.close`
    Close,
    /// `ui.toast`
    Toast,
}

/// The permission a call needs, if any.
pub open spec fn required_permission(c: BridgeCall) -> Option<Permission> {
    match c {
        BridgeCall::Storage(_) => Some(Permission::Storage),
        BridgeCall::ClipboardRead => Some(Permission::ClipboardRead),
        BridgeCall::ClipboardWrite => Some(Permission::ClipboardWrite),
        BridgeCall::OpenUrl => Some(Permission::SystemOpenUrl),
        BridgeCall::Close => None,
        BridgeCall::Toast => None,
    }
}

/// A URL that starts with `https://` or `http://`.
pub open spec fn is_web_url(url: Seq<char>) -> bool {
    "https://"@.is_prefix_of(url) || "http://"@.is_prefix_of(url)
}

/// How the host answers the request `op` of the plugin `id`, with `url` the
/// request's `url` argument: the call it makes, or the error it replies.
pub open spec fn decision(m: Manager, id: Seq<char>, op: Seq<char>, url: Seq<char>) -> Result<
    BridgeCall,
    Seq<char>,
> {
    let storage = |o: StorageOp|
        if m.grants(id, Permission::Storage) {
            Ok(BridgeCall::Storage(o))
        } else {
            Err("storage permission denied"@)
        };
    if op == "storage.get"@ {
        storage(StorageOp::Read)
    } else if op == "storage.set"@ {
        storage(StorageOp::Write)
    } else if op == "storage.remove"@ {
        storage(StorageOp::Delete)
    } else if op == "storage.clear"@ {
        storage(StorageOp::Wipe)
    } else if op == "clipboard.read"@ {
        if m.grants(id, Permission::ClipboardRead) {
            Ok(BridgeCall::ClipboardRead)
        } else {
            Err("clipboard.read permission denied"@)
        }
    } else if op == "clipboard.write"@ {
        if m.grants(id, Permission::ClipboardWrite) {
            Ok(BridgeCall::ClipboardWrite)
        } else {
            Err("clipboard.write permission denied"@)
        }
    } else if op == "system.openUrl"@ {
        if !m.grants(id, Permission::SystemOpenUrl) {
            Err("system.openUrl permission denied"@)
        } else if is_web_url(url) {
            Ok(BridgeCall::OpenUrl)
        } else {
            Err("only http(s) URLs are allowed"@)
        }
    } else if op == "ui.close"@ {
        Ok(BridgeCall::Close)
    } else if op == "ui.toast"@ {
        Ok(BridgeCall::Toast)
    } else {
        Err("unknown plugin API operation"@)
    }
}

fn starts_with(s: &Vec<char>, prefix: &Vec<char>) -> (r: bool)
    ensures
        r == prefix@.is_prefix_of(s@),
{
    if prefix.len() > s.len() {
        return false;
    }
    let mut i: usize = 0;
    while i < prefix.len()
        invariant
            prefix@.len() <= s@.len(),
            i <= prefix@.len(),
            forall|k: int| 0 <= k < i ==> s@[k] == prefix@[k],
        decreases prefix@.len() - i,
    {
        if s[i] != prefix[i] {
            return false;
        }
        i += 1;
    }
    true
}

/// Whether `url` is an http(s) URL.
pub fn web_url(url: &str) -> (r: bool)
    ensures
        r == is_web_url(url@),
{
    let u = chars_of(url);
    starts_with(&u, &chars_of("https://")) || starts_with(&u, &chars_of("http://"))
}

fn denied(msg: &str) -> (r: Result<BridgeCall, String>)
    ensures
        r matches Err(e) && e@ == msg@,
{
    Err(String::from_str(msg))
}

/// Decides the request `op` of the plugin `id`: storage needs the `storage`
/// permission, clipboard reads and writes their matching permissions, and
/// `system.openUrl` needs its permission and an http(s) `url`.
pub fn plugin_request(m: &Manager, id: &str, op: &str, url: &str) -> (r: Result<
    BridgeCall,
    String,
>)
    requires
        m.wf(),
    ensures
        match decision(*m, id@, op@, url@) {
            Ok(c) => r == Ok::<BridgeCall, String>(c),
            Err(msg) => r matches Err(e) && e@ == msg,
        },
{
    if str_eq(op, "storage.get") || str_eq(op, "storage.set") || str_eq(op, "storage.remove")
        || str_eq(op, "storage.clear") {
        if !m.allows(id, Permission::Storage) {
            return denied("storage permission denied");
        }
        let o = if str_eq(op, "storage.get") {
            StorageOp::Read
        } else if str_eq(op, "storage.set") {
            StorageOp::Write
        } else if str_eq(op, "storage.remove") {
            StorageOp::Delete
        } else {
            StorageOp::Wipe
        };
        Ok(BridgeCall::Storage(o))
    } else if str_eq(op, "clipboard.read") {
        if m.allows(id, Permission::ClipboardRead) {
            Ok(BridgeCall::ClipboardRead)
        } else {
            denied("clipboard.read permission denied")
        }
    } else if str_eq(op, "clipboard.write") {
        if m.allows(id, Permission::ClipboardWrite) {
            Ok(BridgeCall::ClipboardWrite)
        } else {
            denied("clipboard.write permission denied")
        }
    } else if str_eq(op, "system.openUrl") {
        if !m.allows(id, Permission::SystemOpenUrl) {
            denied("system.openUrl permission denied")
        } else if web_url(url) {
            Ok(BridgeCall::OpenUrl)
        } else {
            denied("only http(s) URLs are allowed")
        }
    } else if str_eq(op, "ui.close") {
        Ok(BridgeCall::Close)
    } else if str_eq(op, "ui.toast") {
        Ok(BridgeCall::Toast)
    } else {
        denied("unknown plugin API operation")
    }
}

/// The storage operation's name, as `Manager::storage` takes it.
pub fn storage_op_name(o: StorageOp) -> (r: &'static str)
    ensures
        crate::storage::op_named(r@) == Some(o),
{
    let r: &'static str = match o {
        StorageOp::Read => "get",
        StorageOp::Write => "set",
        StorageOp::Delete => "remove",
        StorageOp::Wipe => "clear",
    };
    proof {
        reveal_strlit("get");
        reveal_strlit("set");
        reveal_strlit("remove");
        reveal_strlit("clear");
        assert("get"@[0] == 'g');
        assert("set"@[0] == 's');
        assert("remove"@[0] == 'r');
        assert("clear"@[0] == 'c');
    }
    r
}

/// Each storage request `storage.<name>` of a plugin with the `storage`
/// permission runs the storage operation `<name>` (`get`, `set`, `remove`
/// or `clear`) that `Manager::storage` knows by that name.
pub proof fn lemma_storage_requests(m: Manager, id: Seq<char>, name: Seq<char>, url: Seq<char>)
    requires
        m.grants(id, Permission::Storage),
        crate::storage::op_named(name) is Some,
    ensures
        decision(m, id, "storage."@ + name, url) == Ok::<BridgeCall, Seq<char>>(
            BridgeCall::Storage(crate::storage::op_named(name)->0),
        ),
{
    reveal_strlit("storage.");
    reveal_strlit("get");
    reveal_strlit("set");
    reveal_strlit("remove");
    reveal_strlit("clear");
    reveal_strlit("storage.get");
    reveal_strlit("storage.set");
    reveal_strlit("storage.remove");
    reveal_strlit("storage.clear");
    let op = "storage."@ + name;
    assert("get"@[0] == 'g' && "set"@[0] == 's' && "remove"@[0] == 'r' && "clear"@[0] == 'c');
    assert("storage.get"@[8] == 'g' && "storage.set"@[8] == 's' && "storage.remove"@[8] == 'r'
        && "storage.clear"@[8] == 'c');
    if name == "get"@ {
        assert(op =~= "storage.get"@);
    } else if name == "set"@ {
        assert(op =~= "storage.set"@);
        assert(op[8] != "storage.get"@[8]);
    } else if name == "remove"@ {
        assert(op =~= "storage.remove"@);
        assert(op[8] != "storage.get"@[8]);
        assert(op[8] != "storage.set"@[8]);
    } else {
        assert(op =~= "storage.clear"@);
        assert(op[8] != "storage.get"@[8]);
        assert(op[8] != "storage.set"@[8]);
        assert(op[8] != "storage.remove"@[8]);
    }
}

/// Every granted request has the permission it needs, and `system.openUrl`
/// opens only http(s) URLs.
pub proof fn lemma_granted_requests_hold_permission(
    m: Manager,
    id: Seq<char>,
    op: Seq<char>,
    url: Seq<char>,
)
    ensures
        decision(m, id, op, url) matches Ok(c) ==> match required_permission(c) {
            Some(p) => m.grants(id, p),
            None => true,
        },
        decision(m, id, op, url) == Ok::<BridgeCall, Seq<char>>(BridgeCall::OpenUrl) ==> is_web_url(
            url,
        ),
{
}

} // verus!
