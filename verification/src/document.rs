//! The page that hosts a plugin: its entry markup with the conventional
//! stylesheet and script inlined, after the bridge script that gives it the
//! `window.RightPanel` API.
use vstd::prelude::*;
use crate::json::{json_quoted, json_string};
use crate::text::{chars_of, extend_chars, string_of};

verus! {

/// The most bytes read of an entry page, stylesheet or script.
pub const MAX_FILE: u64 = 524288;

/// Where the bridge script begins, up to the plugin id.
pub const BRIDGE_HEAD: &'static str = "<script>(function(){const ID=";

/// The bridge script between the plugin id and its version.
pub const BRIDGE_MIDDLE: &'static str = ";let n=0,p=new Map();function call(op,args){return new Promise((resolve,reject)=>{const r=String(++n);p.set(r,{resolve,reject});parent.postMessage({rightPanelPlugin:1,id:ID,request:r,op:op,args:args||{}},'*')})}window.addEventListener('message',e=>{let m=e.data;if(!m||m.rightPanelPlugin!==1||!p.has(m.request))return;let q=p.get(m.request);p.delete(m.request);m.ok?q.resolve(m.value):q.reject(new Error(m.error||'Plugin request failed'))});window.RightPanel={apiVersion:1,plugin:{id:ID,version:";

/// The rest of the bridge script, after the version.
pub const BRIDGE_TAIL: &'static str = "},storage:{get:k=>call('storage.get',{key:k}),set:(k,v)=>call('storage.set',{key:k,value:v}),remove:k=>call('storage.remove',{key:k}),clear:()=>call('storage.clear',{key:'_'})},clipboard:{read:()=>call('clipboard.read'),write:text=>call('clipboard.write',{text})},openUrl:url=>call('system.openUrl',{url}),ui:{close:()=>call('ui.close'),showToast:message=>call('ui.toast',{message})},onReady:f=>addEventListener('DOMContentLoaded',f),onShow:f=>addEventListener('rightpanelshow',f),onHide:f=>addEventListener('rightpanelhide',f)}})();</script>";

/// How an entry page links the conventional stylesheet.
pub const STYLE_LINK: &'static str = "<link href=\"style.css\"></link>";

/// How an entry page loads the conventional script.
pub const SCRIPT_LINK: &'static str = "<script src=\"plugin.js\"></script>";

/// The bridge script for the plugin with this id and version: it defines
/// `window.RightPanel`, whose calls are posted to the host page.
pub open spec fn bridge_script(id: Seq<char>, version: Seq<char>) -> Seq<char> {
    BRIDGE_HEAD@ + json_quoted(id) + BRIDGE_MIDDLE@ + json_quoted(version) + BRIDGE_TAIL@
}

/// `s` with every occurrence of `pat` replaced by `rep`, scanning from the
/// left and never overlapping (`str::replace` with a non-empty pattern).
pub open spec fn replace_all(s: Seq<char>, pat: Seq<char>, rep: Seq<char>) -> Seq<char>
    decreases s.len(),
{
    if s.len() == 0 {
        s
    } else if 0 < pat.len() <= s.len() && s.take(pat.len() as int) == pat {
        rep + replace_all(s.skip(pat.len() as int), pat, rep)
    } else {
        seq![s[0]] + replace_all(s.drop_first(), pat, rep)
    }
}

/// `html` with the stylesheet link replaced by an inline `<style>` holding
/// `style`, when there is one.
pub open spec fn with_style(html: Seq<char>, style: Option<Seq<char>>) -> Seq<char> {
    match style {
        Some(s) => replace_all(html, STYLE_LINK@, "<style>"@ + s + "</style>"@),
        None => html,
    }
}

/// `html` with the script tag replaced by an inline `<script>` holding
/// `script`, when there is one.
pub open spec fn with_script(html: Seq<char>, script: Option<Seq<char>>) -> Seq<char> {
    match script {
        Some(s) => replace_all(html, SCRIPT_LINK@, "<script>"@ + s + "</script>"@),
        None => html,
    }
}

/// The document of a plugin: the bridge script first, then the entry
/// markup with its stylesheet and script inlined.
pub open spec fn document(
    html: Seq<char>,
    style: Option<Seq<char>>,
    script: Option<Seq<char>>,
    id: Seq<char>,
    version: Seq<char>,
) -> Seq<char> {
    bridge_script(id, version) + with_script(with_style(html, style), script)
}

/// The bridge script comes before all of the plugin's markup, whatever the
/// entry page holds.
pub proof fn lemma_bridge_precedes_markup(
    html: Seq<char>,
    style: Option<Seq<char>>,
    script: Option<Seq<char>>,
    id: Seq<char>,
    version: Seq<char>,
)
    ensures
        bridge_script(id, version).is_prefix_of(document(html, style, script, id, version)),
        document(html, style, script, id, version).skip(bridge_script(id, version).len() as int)
            == with_script(with_style(html, style), script),
{
    let b = bridge_script(id, version);
    let d = document(html, style, script, id, version);
    assert(d.subrange(0, b.len() as int) =~= b);
    assert(d.skip(b.len() as int) =~= with_script(with_style(html, style), script));
}

fn matches_at(s: &Vec<char>, i: usize, pat: &Vec<char>) -> (r: bool)
    requires
        i <= s@.len(),
    ensures
        r == (i + pat@.len() <= s@.len() && s@.subrange(i as int, i + pat@.len()) == pat@),
{
    if pat.len() > s.len() - i {
        return false;
    }
    let n = s.len();
    let mut j: usize = 0;
    while j < pat.len()
        invariant
            n == s@.len(),
            i <= s@.len(),
            i + pat@.len() <= s@.len(),
            j <= pat@.len(),
            forall|k: int| 0 <= k < j ==> s@[i + k] == pat@[k],
        decreases pat@.len() - j,
    {
        if s[i + j] != pat[j] {
            assert(s@.subrange(i as int, i + pat@.len())[j as int] != pat@[j as int]);
            return false;
        }
        j += 1;
    }
    assert(s@.subrange(i as int, i + pat@.len()) =~= pat@);
    true
}

/// Replaces every occurrence of `pat` in `s` by `rep`.
pub fn replace_chars(s: &Vec<char>, pat: &Vec<char>, rep: &Vec<char>) -> (r: Vec<char>)
    ensures
        r@ == replace_all(s@, pat@, rep@),
{
    let mut out: Vec<char> = Vec::new();
    let mut i: usize = 0;
    assert(s@.skip(0) =~= s@);
    while i < s.len()
        invariant
            i <= s@.len(),
            out@ + replace_all(s@.skip(i as int), pat@, rep@) == replace_all(s@, pat@, rep@),
        decreases s@.len() - i,
    {
        let ghost t = s@.skip(i as int);
        assert(t.len() > 0);
        if pat.len() > 0 && matches_at(s, i, pat) {
            assert(t.take(pat@.len() as int) =~= s@.subrange(i as int, i + pat@.len()));
            assert(t.skip(pat@.len() as int) =~= s@.skip(i + pat@.len()));
            let ghost before = out@;
            extend_chars(&mut out, rep);
            assert(out@ + replace_all(s@.skip(i + pat@.len()), pat@, rep@) =~= before + (rep@
                + replace_all(s@.skip(i + pat@.len()), pat@, rep@)));
            i += pat.len();
        } else {
            proof {
                if 0 < pat@.len() <= t.len() {
                    assert(t.take(pat@.len() as int) =~= s@.subrange(i as int, i + pat@.len()));
                }
            }
            assert(t.drop_first() =~= s@.skip(i + 1));
            assert(t[0] == s@[i as int]);
            let ghost before = out@;
            out.push(s[i]);
            assert(out@ + replace_all(s@.skip(i + 1), pat@, rep@) =~= before + (seq![s@[i as int]]
                + replace_all(s@.skip(i + 1), pat@, rep@)));
            i += 1;
        }
    }
    assert(s@.skip(i as int) =~= Seq::<char>::empty());
    assert(out@ + Seq::<char>::empty() =~= out@);
    out
}

/// Fails with `entry is too large` when an entry page of `len` bytes is over
/// `MAX_FILE`.
pub fn check_entry_size(len: u64) -> (r: Result<(), String>)
    ensures
        r is Ok <==> len <= MAX_FILE,
        r matches Err(e) ==> e@ == "entry is too large"@,
{
    if len > MAX_FILE {
        return Err(String::from_str("entry is too large"));
    }
    Ok(())
}

fn wrap_in_tag(open: &str, body: &String, close: &str) -> (r: Vec<char>)
    ensures
        r@ == open@ + body@ + close@,
{
    let mut out = chars_of(open);
    extend_chars(&mut out, &chars_of(body.as_str()));
    extend_chars(&mut out, &chars_of(close));
    out
}

/// The bridge script for the plugin `id` at `version`.
pub fn bridge(id: &str, version: &str) -> (r: Vec<char>)
    ensures
        r@ == bridge_script(id@, version@),
{
    let mut out = chars_of(BRIDGE_HEAD);
    extend_chars(&mut out, &chars_of(json_string(id).as_str()));
    extend_chars(&mut out, &chars_of(BRIDGE_MIDDLE));
    extend_chars(&mut out, &chars_of(json_string(version).as_str()));
    extend_chars(&mut out, &chars_of(BRIDGE_TAIL));
    out
}

/// Builds the document of a plugin from its entry markup `html` and the
/// contents of its `style.css` and `plugin.js`, where they exist. The bridge
/// script comes first, so it precedes every plugin script even when the
/// entry has no `<head>`.
pub fn build_document(
    html: &String,
    style: Option<&String>,
    script: Option<&String>,
    id: &str,
    version: &str,
) -> (r: String)
    ensures
        r@ == document(
            html@,
            match style {
                Some(s) => Some(s@),
                None => None,
            },
            match script {
                Some(s) => Some(s@),
                None => None,
            },
            id@,
            version@,
        ),
{
    let mut page = chars_of(html.as_str());
    match style {
        Some(s) => {
            let rep = wrap_in_tag("<style>", s, "</style>");
            page = replace_chars(&page, &chars_of(STYLE_LINK), &rep);
        },
        None => {},
    }
    match script {
        Some(s) => {
            let rep = wrap_in_tag("<script>", s, "</script>");
            page = replace_chars(&page, &chars_of(SCRIPT_LINK), &rep);
        },
        None => {},
    }
    let mut out = bridge(id, version);
    extend_chars(&mut out, &page);
    string_of(&out)
}

} // verus!
