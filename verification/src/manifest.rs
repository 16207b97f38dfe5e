//! Plugin manifests and the rules they must meet.
use vstd::prelude::*;
use vstd::utf8::encode_utf8;
use crate::text::{
    lemma_split_by_concat, lemma_split_by_no_sep, char_is_whitespace, chars_of, is_whitespace, split_by, split_chars, str_eq, views, Separator,
};

verus! {

/// What a plugin may ask the host for.
#[derive(Clone, Copy, Debug, PartialEq, Eq, Structural)]
pub enum Permission {
    /// `storage`: its own key-value store.
    Storage,
    /// `clipboard.read`
    ClipboardRead,
    /// `clipboard.write`
    ClipboardWrite,
    /// `system.openUrl`: open http(s) links in the browser.
    SystemOpenUrl,
}

/// One entry of a plugin's settings schema.
pub struct Setting {
    pub key: String,
    /// `boolean`, `text`, `number` or `select`.
    pub kind: String,
    pub label: String,
    /// The default value, as JSON text.
    pub default_json: String,
    pub options: Vec<String>,
}

/// A plugin's manifest: the JSON file at the root of its package.
pub struct Manifest {
    pub manifest_version: u32,
    pub api_version: u32,
    pub id: String,
    pub name: String,
    pub version: String,
    pub description: String,
    pub author: String,
    pub homepage: String,
    pub icon: String,
    pub entry: String,
    pub permissions: Vec<Permission>,
    pub settings: Vec<Setting>,
}

/// Default `api_version` of a manifest that names none.
pub fn api_one() -> (r: u32)
    ensures
        r == 1,
{
    1
}

/// The number of bytes of the UTF-8 encoding of `s` (what `str::len` counts).
pub open spec fn byte_len(s: Seq<char>) -> nat {
    encode_utf8(s).len()
}

pub open spec fn is_lower_or_digit(c: char) -> bool {
    ('a' <= c && c <= 'z') || ('0' <= c && c <= '9')
}

pub open spec fn is_id_char(c: char) -> bool {
    is_lower_or_digit(c) || c == '.' || c == '_' || c == '-'
}

/// A plugin id: 1 to 64 bytes of lowercase ASCII letters, digits, `.`, `_`
/// and `-`, starting with a letter or digit.
pub open spec fn is_valid_id(s: Seq<char>) -> bool {
    &&& s.len() > 0
    &&& byte_len(s) <= 64
    &&& is_lower_or_digit(s[0])
    &&& forall|i: int| 0 <= i < s.len() ==> is_id_char(#[trigger] s[i])
}

/// The number of bytes of `s` (`str::len`).
pub fn byte_count(s: &str) -> (n: usize)
    ensures
        n == byte_len(s@),
{
    s.as_bytes().len()
}

/// Whether `s` is a valid plugin id.
pub fn valid_id(s: &str) -> (r: bool)
    ensures
        r == is_valid_id(s@),
{
    if s.is_empty() || byte_count(s) > 64 {
        return false;
    }
    let cs = chars_of(s);
    let first = cs[0];
    if !(('a' <= first && first <= 'z') || ('0' <= first && first <= '9')) {
        return false;
    }
    let mut i: usize = 0;
    while i < cs.len()
        invariant
            i <= cs.len(),
            cs@ == s@,
            forall|k: int| 0 <= k < i ==> is_id_char(#[trigger] cs@[k]),
        decreases cs.len() - i,
    {
        let c = cs[i];
        if !(('a' <= c && c <= 'z') || ('0' <= c && c <= '9') || c == '.' || c == '_' || c
            == '-') {
            return false;
        }
        i += 1;
    }
    true
}

pub open spec fn all_digits(p: Seq<char>) -> bool {
    forall|j: int| 0 <= j < p.len() ==> '0' <= #[trigger] p[j] && p[j] <= '9'
}

/// Three non-empty runs of ASCII digits separated by `.`.
pub open spec fn is_semverish(s: Seq<char>) -> bool {
    let p = split_by(s, Separator::Char('.'));
    &&& p.len() == 3
    &&& forall|i: int| 0 <= i < 3 ==> #[trigger] p[i].len() > 0 && all_digits(p[i])
}

/// Three non-empty runs of the ASCII digits `0` to `9`, joined by `.`, look
/// like a version.
pub proof fn lemma_semver_accepts(a: Seq<char>, b: Seq<char>, c: Seq<char>)
    requires
        a.len() > 0,
        b.len() > 0,
        c.len() > 0,
        forall|i: int| 0 <= i < a.len() ==> '0' <= #[trigger] a[i] && a[i] <= '9',
        forall|i: int| 0 <= i < b.len() ==> '0' <= #[trigger] b[i] && b[i] <= '9',
        forall|i: int| 0 <= i < c.len() ==> '0' <= #[trigger] c[i] && c[i] <= '9',
    ensures
        is_semverish(a + seq!['.'] + b + seq!['.'] + c),
{
    let sep = Separator::Char('.');
    lemma_split_by_no_sep(a, sep);
    lemma_split_by_no_sep(b, sep);
    lemma_split_by_no_sep(c, sep);
    lemma_split_by_concat(a + seq!['.'] + b, '.', c, sep);
    lemma_split_by_concat(a, '.', b, sep);
    let p = split_by(a + seq!['.'] + b + seq!['.'] + c, sep);
    assert(p =~= seq![a, b, c]);
    assert(all_digits(a) && all_digits(b) && all_digits(c));
}

/// A version holds only ASCII digits and `.`.
pub proof fn lemma_semver_chars(s: Seq<char>)
    requires
        is_semverish(s),
    ensures
        forall|i: int| 0 <= i < s.len() ==> #[trigger] s[i] == '.' || ('0' <= s[i] && s[i] <= '9'),
{
    let sep = Separator::Char('.');
    crate::text::lemma_split_by_covers(s, sep);
    let p = split_by(s, sep);
    assert forall|i: int| 0 <= i < s.len() implies #[trigger] s[i] == '.' || ('0' <= s[i] && s[i]
        <= '9') by {
        if s[i] != '.' {
            let (k, j) = choose|k: int, j: int|
                0 <= k < p.len() && 0 <= j < p[k].len() && #[trigger] p[k][j] == s[i];
            assert(p[k].len() > 0 && all_digits(p[k]));
        }
    }
}

/// Whether `s` looks like `MAJOR.MINOR.PATCH`.
pub fn semverish(s: &str) -> (r: bool)
    ensures
        r == is_semverish(s@),
{
    let parts = split_chars(&chars_of(s), Separator::Char('.'));
    if parts.len() != 3 {
        return false;
    }
    let mut i: usize = 0;
    while i < 3
        invariant
            i <= 3,
            parts@.len() == 3,
            views(parts@) == split_by(s@, Separator::Char('.')),
            forall|k: int| 0 <= k < i ==> #[trigger] parts@[k]@.len() > 0 && all_digits(parts@[k]@),
        decreases 3 - i,
    {
        let p = &parts[i];
        assert(views(parts@)[i as int] == parts@[i as int]@);
        if p.len() == 0 {
            return false;
        }
        let mut j: usize = 0;
        while j < p.len()
            invariant
                i < 3,
                parts@.len() == 3,
                p@ == parts@[i as int]@,
                views(parts@) == split_by(s@, Separator::Char('.')),
                j <= p.len(),
                forall|k: int| 0 <= k < j ==> '0' <= #[trigger] p@[k] && p@[k] <= '9',
            decreases p.len() - j,
        {
            if !('0' <= p[j] && p[j] <= '9') {
                assert(!all_digits(parts@[i as int]@));
                assert(!(split_by(s@, Separator::Char('.'))[i as int].len() > 0 && all_digits(
                    split_by(s@, Separator::Char('.'))[i as int],
                )));
                return false;
            }
            j += 1;
        }
        i += 1;
    }
    assert forall|k: int| 0 <= k < 3 implies #[trigger] views(parts@)[k].len() > 0 && all_digits(
        views(parts@)[k],
    ) by {
        assert(views(parts@)[k] == parts@[k]@);
    }
    true
}

// ---------------------------------------------------------------------------
// Relative paths
// ---------------------------------------------------------------------------

/// The path starts at a root: its first character is a separator.
pub open spec fn rooted(s: Seq<char>) -> bool {
    s.len() > 0 && (s[0] == '/' || s[0] == '\\')
}

/// Every component of the path `s` is a plain name, with both `/` and `\\`
/// as separators (as `std::path` reads paths on Windows): it has no root,
/// does not start with a `.` component, and has no `..` component (empty and
/// interior `.` components are skipped, as `Path::components` does).
pub open spec fn all_normal_components(s: Seq<char>) -> bool {
    let segs = split_by(s, Separator::Path);
    &&& !rooted(s)
    &&& segs[0] != seq!['.']
    &&& forall|i: int| 0 <= i < segs.len() ==> #[trigger] segs[i] != seq!['.', '.']
}

/// A relative path for a manifest's entry or icon: not absolute, no `:`, and
/// only plain components.
pub open spec fn is_safe_path(s: Seq<char>) -> bool {
    &&& !rooted(s)
    &&& !s.contains(':')
    &&& all_normal_components(s)
}

pub fn has_char(cs: &Vec<char>, c: char) -> (r: bool)
    ensures
        r == cs@.contains(c),
{
    let mut i: usize = 0;
    while i < cs.len()
        invariant
            i <= cs.len(),
            forall|k: int| 0 <= k < i ==> cs@[k] != c,
        decreases cs.len() - i,
    {
        if cs[i] == c {
            assert(cs@[i as int] == c);
            return true;
        }
        i += 1;
    }
    false
}

/// Whether the path `cs` has only plain components.
pub fn normal_components(cs: &Vec<char>) -> (r: bool)
    ensures
        r == all_normal_components(cs@),
{
    if cs.len() > 0 && (cs[0] == '/' || cs[0] == '\\') {
        return false;
    }
    let segs = split_chars(cs, Separator::Path);
    proof {
        crate::text::lemma_split_by_nonempty(cs@, Separator::Path);
    }
    assert(views(segs@)[0] == segs@[0]@);
    if segs[0].len() == 1 && segs[0][0] == '.' {
        assert(segs@[0]@ =~= seq!['.']);
        return false;
    }
    assert(segs@[0]@ != seq!['.']);
    let mut i: usize = 0;
    while i < segs.len()
        invariant
            i <= segs.len(),
            views(segs@) == split_by(cs@, Separator::Path),
            forall|k: int| 0 <= k < i ==> #[trigger] views(segs@)[k] != seq!['.', '.'],
        decreases segs.len() - i,
    {
        assert(views(segs@)[i as int] == segs@[i as int]@);
        if segs[i].len() == 2 && segs[i][0] == '.' && segs[i][1] == '.' {
            assert(segs@[i as int]@ =~= seq!['.', '.']);
            return false;
        }
        assert(segs@[i as int]@ != seq!['.', '.']);
        i += 1;
    }
    true
}

/// Whether `s` is a safe relative path for a manifest's entry or icon.
pub fn safe(s: &str) -> (r: bool)
    ensures
        r == is_safe_path(s@),
{
    let cs = chars_of(s);
    if cs.len() > 0 && (cs[0] == '/' || cs[0] == '\\') {
        return false;
    }
    if has_char(&cs, ':') {
        return false;
    }
    normal_components(&cs)
}

// ---------------------------------------------------------------------------
// Validation
// ---------------------------------------------------------------------------

pub open spec fn all_whitespace(s: Seq<char>) -> bool {
    forall|i: int| 0 <= i < s.len() ==> char_is_whitespace(#[trigger] s[i])
}

pub open spec fn known_kind(k: Seq<char>) -> bool {
    k == "boolean"@ || k == "text"@ || k == "number"@ || k == "select"@
}

/// A settings entry with a key of 1 to 64 bytes, a known kind, and at least
/// one option when it is a `select`.
pub open spec fn setting_ok(s: Setting) -> bool {
    &&& s.key@.len() > 0
    &&& byte_len(s.key@) <= 64
    &&& known_kind(s.kind@)
    &&& !(s.kind@ == "select"@ && s.options@.len() == 0)
}

/// A path field that is empty, or safe and present.
pub open spec fn path_ok(p: Seq<char>, exists: bool) -> bool {
    p.len() == 0 || (is_safe_path(p) && exists)
}

impl Manifest {
    /// The message of the first rule that the manifest breaks, or `None`.
    /// `entry_exists` and `icon_exists` say whether those paths name
    /// existing files in the plugin's folder.
    pub open spec fn validation_error(self, entry_exists: bool, icon_exists: bool) -> Option<
        Seq<char>,
    > {
        match self.header_error(entry_exists, icon_exists) {
            Some(e) => Some(e),
            None => if exists|i: int|
                0 <= i < self.settings@.len() && !setting_ok(#[trigger] self.settings@[i]) {
                Some("invalid settings schema"@)
            } else {
                None
            },
        }
    }

    /// The first rule broken outside the settings schema, or `None`.
    pub open spec fn header_error(self, entry_exists: bool, icon_exists: bool) -> Option<
        Seq<char>,
    > {
        if self.manifest_version != 1 || self.api_version != 1 {
            Some("unsupported manifest or API version"@)
        } else if !is_valid_id(self.id@) {
            Some("invalid plugin id"@)
        } else if all_whitespace(self.name@) || byte_len(self.name@) > 100 || byte_len(
            self.description@,
        ) > 1000 || byte_len(self.author@) > 100 {
            Some("invalid manifest text field"@)
        } else if !is_semverish(self.version@) {
            Some("version must look like SemVer"@)
        } else if !path_ok(self.entry@, entry_exists) || !path_ok(self.icon@, icon_exists) {
            Some("entry/icon must be an existing safe relative path"@)
        } else if self.entry@.len() == 0 {
            Some("entry is required"@)
        } else if self.permissions@.len() > 8 || self.settings@.len() > 32 {
            Some("too many permissions or settings"@)
        } else {
            None
        }
    }

    /// Checks the manifest against the plugin rules. `entry_exists` and
    /// `icon_exists` tell whether `entry` and `icon`, joined to the plugin's
    /// folder, are existing files.
    pub fn validate(&self, entry_exists: bool, icon_exists: bool) -> (r: Result<(), String>)
        ensures
            r is Ok <==> self.validation_error(entry_exists, icon_exists) is None,
            r matches Err(e) ==> Some(e@) == self.validation_error(entry_exists, icon_exists),
    {
        if self.manifest_version != 1 || self.api_version != 1 {
            return Err(String::from_str("unsupported manifest or API version"));
        }
        if !valid_id(self.id.as_str()) {
            return Err(String::from_str("invalid plugin id"));
        }
        if blank(self.name.as_str()) || byte_count(self.name.as_str()) > 100 || byte_count(
            self.description.as_str(),
        ) > 1000 || byte_count(self.author.as_str()) > 100 {
            return Err(String::from_str("invalid manifest text field"));
        }
        if !semverish(self.version.as_str()) {
            return Err(String::from_str("version must look like SemVer"));
        }
        if !path_present(self.entry.as_str(), entry_exists) || !path_present(
            self.icon.as_str(),
            icon_exists,
        ) {
            return Err(String::from_str("entry/icon must be an existing safe relative path"));
        }
        if self.entry.as_str().is_empty() {
            return Err(String::from_str("entry is required"));
        }
        if self.permissions.len() > 8 || self.settings.len() > 32 {
            return Err(String::from_str("too many permissions or settings"));
        }
        assert(self.header_error(entry_exists, icon_exists) is None);
        let mut i: usize = 0;
        while i < self.settings.len()
            invariant
                self.header_error(entry_exists, icon_exists) is None,
                i <= self.settings@.len(),
                forall|k: int| 0 <= k < i ==> setting_ok(#[trigger] self.settings@[k]),
            decreases self.settings@.len() - i,
        {
            if !setting_valid(&self.settings[i]) {
                assert(!setting_ok(self.settings@[i as int]));

                return Err(String::from_str("invalid settings schema"));
            }
            i += 1;
        }
        Ok(())
    }
}

fn blank(s: &str) -> (r: bool)
    ensures
        r == all_whitespace(s@),
{
    let cs = chars_of(s);
    let mut i: usize = 0;
    while i < cs.len()
        invariant
            i <= cs.len(),
            cs@ == s@,
            forall|k: int| 0 <= k < i ==> char_is_whitespace(#[trigger] cs@[k]),
        decreases cs.len() - i,
    {
        if !is_whitespace(cs[i]) {
            return false;
        }
        i += 1;
    }
    true
}

fn path_present(p: &str, exists: bool) -> (r: bool)
    ensures
        r == path_ok(p@, exists),
{
    p.is_empty() || (safe(p) && exists)
}

fn setting_valid(s: &Setting) -> (r: bool)
    ensures
        r == setting_ok(*s),
{
    let k = s.kind.as_str();
    let known = str_eq(k, "boolean") || str_eq(k, "text") || str_eq(k, "number") || str_eq(
        k,
        "select",
    );
    !s.key.as_str().is_empty() && byte_count(s.key.as_str()) <= 64 && known && !(str_eq(k, "select")
        && s.options.len() == 0)
}

} // verus!
