//! Plugin manifests: checking the fields read from a manifest file, and
//! the order in which plugins that claim the same capability are preferred.

use vstd::prelude::*;
use crate::slides::{digits_value, is_digit};
use crate::text::{concat, to_chars};

verus! {

/// The metadata that a plugin declares in its manifest.
#[derive(Clone, Debug, PartialEq)]
pub struct PluginManifest {
    pub name: String,
    pub version: String,
    pub description: String,
    pub author: String,
    pub license: Option<String>,
    pub priority: Option<u32>,
}

/// The mathematical value of a manifest.
pub struct ManifestV {
    pub name: Seq<char>,
    pub version: Seq<char>,
    pub description: Seq<char>,
    pub author: Seq<char>,
    pub license: Option<Seq<char>>,
    pub priority: Option<u32>,
}

impl View for PluginManifest {
    type V = ManifestV;

    open spec fn view(&self) -> ManifestV {
        ManifestV {
            name: self.name@,
            version: self.version@,
            description: self.description@,
            author: self.author@,
            license: match self.license {
                Some(l) => Some(l@),
                None => None,
            },
            priority: self.priority,
        }
    }
}

/// The mathematical value of a list of manifests.
pub open spec fn manifests_view(s: Seq<PluginManifest>) -> Seq<ManifestV> {
    s.map_values(|p: PluginManifest| p@)
}

/// The priority a plugin is ranked by: the declared one, else 100.
pub open spec fn priority_of(m: ManifestV) -> u32 {
    match m.priority {
        Some(p) => p,
        None => 100,
    }
}

impl PluginManifest {
    /// The priority this plugin is ranked by (lower is preferred): the
    /// declared priority, or 100 when none is declared.
    pub fn effective_priority(&self) -> (p: u32)
        ensures
            p == priority_of(self@),
    {
        match self.priority {
            Some(p) => p,
            None => 100,
        }
    }
}

/// Lexicographic order of strings by their characters (code points), the
/// order in which Rust compares strings: a proper prefix comes first.
pub open spec fn str_lt(a: Seq<char>, b: Seq<char>) -> bool
    decreases a.len(),
{
    if a.len() == 0 {
        b.len() > 0
    } else if b.len() == 0 {
        false
    } else if a[0] != b[0] {
        a[0] < b[0]
    } else {
        str_lt(a.drop_first(), b.drop_first())
    }
}

proof fn lemma_str_lt_irreflexive(a: Seq<char>)
    ensures
        !str_lt(a, a),
    decreases a.len(),
{
    if a.len() > 0 {
        lemma_str_lt_irreflexive(a.drop_first());
    }
}

proof fn lemma_str_lt_transitive(a: Seq<char>, b: Seq<char>, c: Seq<char>)
    requires
        str_lt(a, b),
        str_lt(b, c),
    ensures
        str_lt(a, c),
    decreases a.len(),
{
    if a.len() > 0 && b.len() > 0 && c.len() > 0 && a[0] == b[0] && b[0] == c[0] {
        lemma_str_lt_transitive(a.drop_first(), b.drop_first(), c.drop_first());
    }
}

proof fn lemma_str_lt_total(a: Seq<char>, b: Seq<char>)
    ensures
        a == b || str_lt(a, b) || str_lt(b, a),
    decreases a.len(),
{
    if a.len() > 0 && b.len() > 0 {
        if a[0] == b[0] {
            lemma_str_lt_total(a.drop_first(), b.drop_first());
            if a.drop_first() == b.drop_first() {
                assert(a =~= seq![a[0]] + a.drop_first());
                assert(b =~= seq![b[0]] + b.drop_first());
            }
        }
    } else if a.len() == 0 && b.len() == 0 {
        assert(a =~= b);
    }
}

proof fn lemma_str_lt_asymmetric(a: Seq<char>, b: Seq<char>)
    requires
        str_lt(a, b),
    ensures
        !str_lt(b, a),
{
    if str_lt(b, a) {
        lemma_str_lt_transitive(a, b, a);
        lemma_str_lt_irreflexive(a);
    }
}

/// Whether `a` sorts before `b` by Rust's string order.
pub fn str_less(a: &str, b: &str) -> (r: bool)
    ensures
        r == str_lt(a@, b@),
{
    let x = to_chars(a);
    let y = to_chars(b);
    let mut i: usize = 0;
    assert(x@.skip(0) =~= x@);
    assert(y@.skip(0) =~= y@);
    while i < x.len() && i < y.len() && x[i] == y[i]
        invariant
            i <= x.len(),
            i <= y.len(),
            x@.take(i as int) == y@.take(i as int),
            str_lt(x@, y@) == str_lt(x@.skip(i as int), y@.skip(i as int)),
        decreases x.len() - i,
    {
        proof {
            assert(x@.skip(i as int).drop_first() =~= x@.skip(i + 1));
            assert(y@.skip(i as int).drop_first() =~= y@.skip(i + 1));
            assert(x@.take(i + 1) =~= x@.take(i as int).push(x@[i as int]));
            assert(y@.take(i + 1) =~= y@.take(i as int).push(y@[i as int]));
        }
        i += 1;
    }
    if i == x.len() {
        i < y.len()
    } else if i == y.len() {
        false
    } else {
        x[i] < y[i]
    }
}

/// The number of decimal digits that `s` starts with.
pub open spec fn digit_run(s: Seq<char>) -> nat
    decreases s.len(),
{
    if s.len() > 0 && is_digit(s[0]) {
        1 + digit_run(s.drop_first())
    } else {
        0
    }
}

/// The number that `s` starts with: the value of its leading decimal
/// digits (0 when it starts with none), a value past `u64::MAX` counting
/// as `u64::MAX`.
pub open spec fn leading_number(s: Seq<char>) -> nat {
    let v = digits_value(s.take(digit_run(s) as int));
    if v > u64::MAX {
        u64::MAX as nat
    } else {
        v
    }
}

/// What follows the first `.` of `s`; empty when `s` holds none.
pub open spec fn after_dot(s: Seq<char>) -> Seq<char>
    decreases s.len(),
{
    if s.len() == 0 {
        s
    } else if s[0] == '.' {
        s.drop_first()
    } else {
        after_dot(s.drop_first())
    }
}

/// The semantic version `major.minor.patch` that a version string
/// declares, as numbers: each part is the number its dot-separated field
/// starts with, and a missing field counts as 0. What follows the digits
/// of a field (a pre-release or build suffix) is not compared.
pub open spec fn version_key(v: Seq<char>) -> (nat, nat, nat) {
    (leading_number(v), leading_number(after_dot(v)), leading_number(after_dot(after_dot(v))))
}

/// Whether version key `a` is lower than `b`: major, then minor, then patch.
pub open spec fn key_lt(a: (nat, nat, nat), b: (nat, nat, nat)) -> bool {
    ||| a.0 < b.0
    ||| a.0 == b.0 && a.1 < b.1
    ||| a.0 == b.0 && a.1 == b.1 && a.2 < b.2
}

/// Whether plugin `a` is preferred over plugin `b` when both claim the
/// same capability: lower priority first, then the higher semantic
/// version, then the name in alphabetical order.
pub open spec fn preferred(a: ManifestV, b: ManifestV) -> bool {
    ||| priority_of(a) < priority_of(b)
    ||| priority_of(a) == priority_of(b) && key_lt(version_key(b.version), version_key(a.version))
    ||| priority_of(a) == priority_of(b) && version_key(a.version) == version_key(b.version)
        && str_lt(a.name, b.name)
}

/// Two manifests that neither is preferred to: the same priority, semantic
/// version and name.
pub open spec fn same_rank(a: ManifestV, b: ManifestV) -> bool {
    priority_of(a) == priority_of(b) && version_key(a.version) == version_key(b.version) && a.name
        == b.name
}

proof fn lemma_preferred_order(a: ManifestV, b: ManifestV, c: ManifestV)
    ensures
        !preferred(a, a),
        preferred(a, b) ==> !preferred(b, a),
        preferred(a, b) && preferred(b, c) ==> preferred(a, c),
        preferred(a, b) || preferred(b, a) || same_rank(a, b),
{
    lemma_str_lt_irreflexive(a.name);
    lemma_str_lt_total(a.name, b.name);
    if str_lt(a.name, b.name) {
        lemma_str_lt_asymmetric(a.name, b.name);
    }
    if preferred(a, b) && preferred(b, c) {
        if str_lt(a.name, b.name) && str_lt(b.name, c.name) {
            lemma_str_lt_transitive(a.name, b.name, c.name);
        }
    }
}

proof fn lemma_digit_run(s: Seq<char>, j: int)
    requires
        0 <= j <= s.len(),
        forall|k: int| 0 <= k < j ==> #[trigger] is_digit(s[k]),
        j == s.len() || !is_digit(s[j]),
    ensures
        digit_run(s) == j,
    decreases j,
{
    if j > 0 {
        let t = s.drop_first();
        assert forall|k: int| 0 <= k < j - 1 implies #[trigger] is_digit(t[k]) by {
            assert(t[k] == s[k + 1]);
        }
        lemma_digit_run(t, j - 1);
    }
}

/// The number that the characters of `v` from `lo` on start with.
fn number_from(v: &Vec<char>, lo: usize) -> (n: u64)
    requires
        lo <= v.len(),
    ensures
        n == leading_number(v@.skip(lo as int)),
{
    let ghost s = v@.skip(lo as int);
    let mut acc: u64 = 0;
    let mut over = false;
    let mut j = lo;
    assert(v@.subrange(lo as int, lo as int) =~= Seq::<char>::empty());
    while j < v.len() && '0' <= v[j] && v[j] <= '9'
        invariant
            lo <= j <= v.len(),
            s == v@.skip(lo as int),
            forall|k: int| lo <= k < j ==> #[trigger] is_digit(v@[k]),
            !over ==> acc == digits_value(v@.subrange(lo as int, j as int)),
            over ==> digits_value(v@.subrange(lo as int, j as int)) > u64::MAX,
        decreases v.len() - j,
    {
        let c = v[j];
        let ghost prev = v@.subrange(lo as int, j as int);
        let ghost next = v@.subrange(lo as int, j + 1);
        assert(next.drop_last() =~= prev);
        let dg: u64 = (c as u32 - '0' as u32) as u64;
        assert(dg == (next.last() as int - '0' as int));
        if !over {
            match acc.checked_mul(10) {
                Some(m) => match m.checked_add(dg) {
                    Some(a) => {
                        acc = a;
                    },
                    None => {
                        over = true;
                    },
                },
                None => {
                    over = true;
                },
            }
        }
        j += 1;
    }
    proof {
        assert forall|k: int| 0 <= k < j - lo implies #[trigger] is_digit(s[k]) by {
            assert(s[k] == v@[lo + k]);
        }
        if j < v.len() {
            assert(s[j - lo] == v@[j as int]);
        }
        lemma_digit_run(s, j - lo);
        assert(s.take(j - lo) =~= v@.subrange(lo as int, j as int));
    }
    if over {
        u64::MAX
    } else {
        acc
    }
}

/// Where what follows the first `.` at or after `lo` in `v` begins.
fn after_dot_from(v: &Vec<char>, lo: usize) -> (j: usize)
    requires
        lo <= v.len(),
    ensures
        lo <= j <= v.len(),
        v@.skip(j as int) == after_dot(v@.skip(lo as int)),
{
    let mut j = lo;
    while j < v.len() && v[j] != '.'
        invariant
            lo <= j <= v.len(),
            after_dot(v@.skip(j as int)) == after_dot(v@.skip(lo as int)),
        decreases v.len() - j,
    {
        assert(v@.skip(j as int).drop_first() =~= v@.skip(j + 1));
        j += 1;
    }
    if j == v.len() {
        assert(v@.skip(j as int) =~= Seq::<char>::empty());
        j
    } else {
        assert(v@.skip(j as int).drop_first() =~= v@.skip(j + 1));
        j + 1
    }
}

/// The semantic version key of a version string.
fn version_key_of(version: &str) -> (k: (u64, u64, u64))
    ensures
        (k.0 as nat, k.1 as nat, k.2 as nat) == version_key(version@),
{
    let v = to_chars(version);
    assert(v@.skip(0) =~= v@);
    let major = number_from(&v, 0);
    let d1 = after_dot_from(&v, 0);
    let minor = number_from(&v, d1);
    let d2 = after_dot_from(&v, d1);
    let patch = number_from(&v, d2);
    (major, minor, patch)
}

/// Whether `a` comes before `b` in the preference order.
fn is_preferred(a: &PluginManifest, b: &PluginManifest) -> (r: bool)
    ensures
        r == preferred(a@, b@),
{
    let pa = a.effective_priority();
    let pb = b.effective_priority();
    if pa != pb {
        return pa < pb;
    }
    let ka = version_key_of(a.version.as_str());
    let kb = version_key_of(b.version.as_str());
    if ka.0 != kb.0 {
        return ka.0 > kb.0;
    }
    if ka.1 != kb.1 {
        return ka.1 > kb.1;
    }
    if ka.2 != kb.2 {
        return ka.2 > kb.2;
    }
    str_less(a.name.as_str(), b.name.as_str())
}

/// Whether the plugin at index `i` of `m` is ranked before the one at
/// index `j`: it is preferred, or neither is preferred and it came first.
pub open spec fn ranked_before(m: Seq<ManifestV>, i: int, j: int) -> bool {
    preferred(m[i], m[j]) || (!preferred(m[j], m[i]) && i < j)
}

/// Whether `perm` lists the indices of `m` in resolution order: each
/// index is ranked before every later one (so each occurs once).
pub open spec fn resolution_order(m: Seq<ManifestV>, perm: Seq<int>) -> bool {
    &&& perm.len() == m.len()
    &&& forall|k: int| 0 <= k < perm.len() ==> 0 <= #[trigger] perm[k] < m.len()
    &&& forall|a: int, b: int|
        #![trigger perm[a], perm[b]]
        0 <= a < b < perm.len() ==> ranked_before(m, perm[a], perm[b])
}

spec fn sorted_prefix(m: Seq<ManifestV>, perm: Seq<int>) -> bool {
    forall|a: int, b: int|
        #![trigger perm[a], perm[b]]
        0 <= a < b < perm.len() ==> ranked_before(m, perm[a], perm[b])
}

proof fn lemma_same_rank_preferred(a: ManifestV, b: ManifestV, c: ManifestV)
    requires
        same_rank(b, c),
    ensures
        preferred(a, b) == preferred(a, c),
{
}

proof fn lemma_insert_sorted(m: Seq<ManifestV>, perm: Seq<int>, pos: int, i: int)
    requires
        sorted_prefix(m, perm),
        0 <= pos <= perm.len(),
        0 <= i < m.len(),
        forall|k: int| 0 <= k < perm.len() ==> 0 <= #[trigger] perm[k] < i,
        forall|k: int| pos <= k < perm.len() ==> preferred(m[i], m[#[trigger] perm[k]]),
        pos > 0 ==> !preferred(m[i], m[perm[pos - 1]]),
    ensures
        sorted_prefix(m, perm.insert(pos, i)),
{
    let q = perm.insert(pos, i);
    assert forall|a: int, b: int|
        #![trigger q[a], q[b]]
        0 <= a < b < q.len() implies ranked_before(m, q[a], q[b]) by {
        if a < pos && b == pos {
            let x = m[perm[a]];
            let last = m[perm[pos - 1]];
            lemma_preferred_order(m[i], x, last);
            lemma_preferred_order(x, last, m[i]);
            if a < pos - 1 {
                assert(ranked_before(m, perm[a], perm[pos - 1]));
                if same_rank(x, last) {
                    lemma_same_rank_preferred(m[i], x, last);
                }
            }
            assert(!preferred(m[i], x));
            assert(q[a] == perm[a]);
        } else if a == pos {
            assert(q[b] == perm[b - 1]);
            assert(preferred(m[i], m[perm[b - 1]]));
        } else if b < pos {
            assert(q[a] == perm[a] && q[b] == perm[b]);
        } else if a < pos {
            assert(q[a] == perm[a] && q[b] == perm[b - 1]);
        } else {
            assert(q[a] == perm[a - 1] && q[b] == perm[b - 1]);
        }
    }
}

/// Order plugins that claim the same capability by preference: lower
/// priority first (100 when undeclared), then the higher semantic version
/// (`major.minor.patch` compared as numbers, see `version_key`), then the
/// name in alphabetical order; plugins of equal rank keep their given order.
pub fn resolve_plugins(plugins: Vec<PluginManifest>) -> (r: Vec<PluginManifest>)
    ensures
        r@.len() == plugins@.len(),
        exists|perm: Seq<int>|
            #[trigger] resolution_order(manifests_view(plugins@), perm) && forall|k: int|
                0 <= k < r@.len() ==> #[trigger] r@[k] == plugins@[perm[k]],
{
    let ghost input = plugins@;
    let ghost m = manifests_view(input);
    let mut rest = plugins;
    let mut out: Vec<PluginManifest> = Vec::new();
    let ghost mut perm: Seq<int> = Seq::empty();
    let ghost mut i: int = 0;
    assert(input.skip(0) =~= input);
    while rest.len() > 0
        invariant
            0 <= i <= input.len(),
            m == manifests_view(input),
            rest@ == input.skip(i),
            out@.len() == i,
            perm.len() == i,
            forall|k: int| 0 <= k < i ==> 0 <= #[trigger] perm[k] < i,
            forall|k: int| 0 <= k < i ==> #[trigger] out@[k] == input[perm[k]],
            sorted_prefix(m, perm),
        decreases rest.len(),
    {
        let item = rest.remove(0);
        assert(item == input[i]);
        assert(m[i] == item@);
        let mut pos: usize = out.len();
        while pos > 0 && is_preferred(&item, &out[pos - 1])
            invariant
                pos <= out@.len(),
                out@.len() == perm.len(),
                forall|k: int| 0 <= k < perm.len() ==> #[trigger] out@[k] == input[perm[k]],
                m == manifests_view(input),
                forall|k: int| 0 <= k < perm.len() ==> 0 <= #[trigger] perm[k] < input.len(),
                m[i] == item@,
                forall|k: int| pos <= k < perm.len() ==> preferred(m[i], m[#[trigger] perm[k]]),
            decreases pos,
        {
            assert(out@[pos - 1]@ == m[perm[pos - 1]]);
            pos -= 1;
        }
        proof {
            if pos > 0 {
                assert(out@[pos - 1]@ == m[perm[pos - 1]]);
            }
            lemma_insert_sorted(m, perm, pos as int, i);
        }
        let ghost old_out = out@;
        out.insert(pos, item);
        proof {
            let q = perm.insert(pos as int, i);
            assert forall|k: int| 0 <= k < i + 1 implies #[trigger] out@[k] == input[q[k]] by {
                if k < pos {
                    assert(out@[k] == old_out[k]);
                } else if k > pos {
                    assert(out@[k] == old_out[k - 1]);
                }
            }
            perm = q;
            i = i + 1;
            assert(input.skip(i - 1).drop_first() =~= input.skip(i));
        }
    }
    proof {
        assert forall|k: int| 0 <= k < perm.len() implies 0 <= #[trigger] perm[k] < m.len() by {}
        assert(resolution_order(m, perm));
    }
    out
}

/// Errors that can occur during manifest parsing.
#[derive(Clone, Debug, PartialEq)]
pub enum ManifestError {
    /// The TOML content could not be parsed.
    Parse(String),
    /// A required field is missing from the manifest.
    MissingField(String),
    /// The manifest file could not be read.
    Io(String),
}

impl ManifestError {
    /// The error as text.
    pub fn message(&self) -> (r: String)
        ensures
            r@ == match self {
                ManifestError::Parse(m) => "Invalid TOML: "@ + m@,
                ManifestError::MissingField(m) => "Missing required field: "@ + m@,
                ManifestError::Io(m) => "IO error: "@ + m@,
            },
    {
        match self {
            ManifestError::Parse(m) => concat("Invalid TOML: ", m.as_str()),
            ManifestError::MissingField(m) => concat("Missing required field: ", m.as_str()),
            ManifestError::Io(m) => concat("IO error: ", m.as_str()),
        }
    }
}

/// Errors that can occur during plugin discovery.
#[derive(Clone, Debug, PartialEq)]
pub enum DiscoveryError {
    /// A manifest file could not be parsed.
    Manifest { path: String, source: ManifestError },
    /// A directory could not be read.
    Io(String),
}

impl DiscoveryError {
    /// The error as text.
    pub fn message(&self) -> (r: String)
        ensures
            r@ == match self {
                DiscoveryError::Manifest { path, source } => "Manifest error in "@ + path@ + ": "@
                    + match source {
                    ManifestError::Parse(m) => "Invalid TOML: "@ + m@,
                    ManifestError::MissingField(m) => "Missing required field: "@ + m@,
                    ManifestError::Io(m) => "IO error: "@ + m@,
                },
                DiscoveryError::Io(m) => "IO error reading plugin directory: "@ + m@,
            },
    {
        match self {
            DiscoveryError::Manifest { path, source } => {
                let head = concat("Manifest error in ", path.as_str());
                let head = concat(head.as_str(), ": ");
                let tail = source.message();
                concat(head.as_str(), tail.as_str())
            },
            DiscoveryError::Io(m) => concat("IO error reading plugin directory: ", m.as_str()),
        }
    }
}

/// The fields of the `[plugin]` section of a manifest file, as read.
#[derive(Clone, Debug, PartialEq)]
pub struct PluginSection {
    pub name: String,
    pub version: String,
    pub description: String,
    pub author: String,
    pub license: Option<String>,
    pub priority: Option<u32>,
}

/// The manifest that a `[plugin]` section declares. A manifest needs a
/// name and a version: an empty name is reported first, then an empty version.
pub fn manifest_from_section(section: PluginSection) -> (r: Result<PluginManifest, ManifestError>)
    ensures
        section.name@.len() == 0 ==> (r matches Err(ManifestError::MissingField(f)) && f@ == "name"@),
        section.name@.len() > 0 && section.version@.len() == 0 ==> (r matches Err(
            ManifestError::MissingField(f),
        ) && f@ == "version"@),
        section.name@.len() > 0 && section.version@.len() > 0 ==> r == Ok::<
            PluginManifest,
            ManifestError,
        >(
            PluginManifest {
                name: section.name,
                version: section.version,
                description: section.description,
                author: section.author,
                license: section.license,
                priority: section.priority,
            },
        ),
{
    if section.name.as_str().is_empty() {
        return Err(ManifestError::MissingField("name".to_string()));
    }
    if section.version.as_str().is_empty() {
        return Err(ManifestError::MissingField("version".to_string()));
    }
    Ok(
        PluginManifest {
            name: section.name,
            version: section.version,
            description: section.description,
            author: section.author,
            license: section.license,
            priority: section.priority,
        },
    )
}

} // verus!
