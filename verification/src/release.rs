//! Package lists and release manifests of the distro tools: merging package lists without
//! repeats, rendering them, and the checksum and manifest records of a release.
use vstd::prelude::*;
use sha2::Digest;
use crate::text::{joined, push_joined, strings_of, hex_lower, to_hex_lower};

verus! {

/// The SHA-256 digest of `data`, as the `sha2` crate computes it.
pub uninterp spec fn sha256(data: Seq<u8>) -> Seq<u8>;

/// `sha2::Sha256::digest`: the 32-byte SHA-256 digest of `data`.
#[verifier::external_body]
fn sha256_digest(data: &[u8]) -> (r: Vec<u8>)
    ensures
        r@ == sha256(data@),
        r@.len() == 32,
{
    sha2::Sha256::digest(data).to_vec()
}

/// The SHA-256 of `data` in lowercase hex, as written to `SHA256SUMS`.
pub fn sha256_hex(data: &[u8]) -> (r: String)
    ensures
        r@ == hex_lower(sha256(data@)),
        r@.len() == 64,
{
    let digest = sha256_digest(data);
    proof {
        lemma_hex_lower_len(digest@);
    }
    to_hex_lower(digest.as_slice())
}

/// Hex takes two characters per byte.
pub proof fn lemma_hex_lower_len(bytes: Seq<u8>)
    ensures
        hex_lower(bytes).len() == 2 * bytes.len(),
    decreases bytes.len(),
{
    if bytes.len() > 0 {
        lemma_hex_lower_len(bytes.drop_last());
    }
}

/// The groups to render: the ones named, or the default group when none is.
pub fn groups_or_default(groups: Vec<String>) -> (r: Vec<String>)
    ensures
        groups@.len() > 0 ==> r@ == groups@,
        groups@.len() == 0 ==> r@.len() == 1 && r@[0]@ == "tuff-base"@,
{
    if groups.len() == 0 {
        vec![String::from_str("tuff-base")]
    } else {
        groups
    }
}

/// Whether a list of strings names each one once.
pub open spec fn no_repeats(v: Seq<Seq<char>>) -> bool {
    forall|i: int, j: int| 0 <= i < j < v.len() ==> v[i] != v[j]
}

/// `packages` followed by those of `more` not seen before, each kept at its first occurrence.
pub open spec fn merged(packages: Seq<Seq<char>>, more: Seq<Seq<char>>) -> Seq<Seq<char>>
    decreases more.len(),
{
    if more.len() == 0 {
        packages
    } else {
        let rest = more.drop_first();
        if packages.contains(more[0]) {
            merged(packages, rest)
        } else {
            merged(packages.push(more[0]), rest)
        }
    }
}

/// Merging a list into one without repeats gives a list without repeats, which keeps the old
/// list as its prefix and holds exactly the names of both.
pub proof fn lemma_merged(packages: Seq<Seq<char>>, more: Seq<Seq<char>>)
    requires
        no_repeats(packages),
    ensures
        no_repeats(merged(packages, more)),
        merged(packages, more).len() >= packages.len(),
        merged(packages, more).take(packages.len() as int) == packages,
        forall|x: Seq<char>|
            merged(packages, more).contains(x) <==> (packages.contains(x) || more.contains(x)),
    decreases more.len(),
{
    if more.len() > 0 {
        let rest = more.drop_first();
        if packages.contains(more[0]) {
            lemma_merged(packages, rest);
            assert forall|x: Seq<char>| more.contains(x) <==> (x == more[0] || rest.contains(x)) by {
                if more.contains(x) {
                    let k = choose|k: int| 0 <= k < more.len() && more[k] == x;
                    if k > 0 {
                        assert(rest[k - 1] == x);
                    }
                }
                if rest.contains(x) {
                    let k = choose|k: int| 0 <= k < rest.len() && rest[k] == x;
                    assert(more[k + 1] == x);
                }
            }
        } else {
            let p2 = packages.push(more[0]);
            assert(no_repeats(p2)) by {
                assert forall|i: int, j: int| 0 <= i < j < p2.len() implies p2[i] != p2[j] by {
                    if j == packages.len() {
                        assert(p2[i] == packages[i]);
                    }
                }
            }
            lemma_merged(p2, rest);
            let m = merged(p2, rest);
            assert(m.take(packages.len() as int) =~= m.take(p2.len() as int).take(packages.len() as int));
            assert(p2.take(packages.len() as int) =~= packages);
            assert forall|x: Seq<char>| p2.contains(x) <==> (packages.contains(x) || x == more[0]) by {
                if p2.contains(x) {
                    let k = choose|k: int| 0 <= k < p2.len() && p2[k] == x;
                    if k < packages.len() {
                        assert(packages[k] == x);
                    }
                }
                if packages.contains(x) {
                    let k = choose|k: int| 0 <= k < packages.len() && packages[k] == x;
                    assert(p2[k] == x);
                }
                if x == more[0] {
                    assert(p2[packages.len() as int] == x);
                }
            }
            assert forall|x: Seq<char>| more.contains(x) <==> (x == more[0] || rest.contains(x)) by {
                if more.contains(x) {
                    let k = choose|k: int| 0 <= k < more.len() && more[k] == x;
                    if k > 0 {
                        assert(rest[k - 1] == x);
                    }
                }
                if rest.contains(x) {
                    let k = choose|k: int| 0 <= k < rest.len() && rest[k] == x;
                    assert(more[k + 1] == x);
                }
                if x == more[0] {
                    assert(more[0] == x);
                }
            }
        }
    } else {
        assert(packages.take(packages.len() as int) =~= packages);
    }
}

fn strings_equal(a: &String, b: &String) -> (r: bool)
    ensures
        r == (a@ == b@),
{
    let x = a.as_str();
    let y = b.as_str();
    if x.unicode_len() != y.unicode_len() {
        return false;
    }
    let n = x.unicode_len();
    let mut i: usize = 0;
    while i < n
        invariant
            i <= n,
            n == x@.len(),
            n == y@.len(),
            x@ == a@,
            y@ == b@,
            forall|j: int| 0 <= j < i ==> x@[j] == y@[j],
        decreases n - i,
    {
        if x.get_char(i) != y.get_char(i) {
            return false;
        }
        i = i + 1;
    }
    assert(x@ =~= y@);
    true
}

fn contains_string(v: &Vec<String>, s: &String) -> (r: bool)
    ensures
        r == strings_of(v@).contains(s@),
{
    let mut i: usize = 0;
    while i < v.len()
        invariant
            i <= v@.len(),
            forall|j: int| 0 <= j < i ==> v@[j]@ != s@,
        decreases v@.len() - i,
    {
        if strings_equal(&v[i], s) {
            assert(strings_of(v@)[i as int] == s@);
            return true;
        }
        i = i + 1;
    }
    proof {
        if strings_of(v@).contains(s@) {
            let k = choose|k: int| 0 <= k < strings_of(v@).len() && strings_of(v@)[k] == s@;
            assert(v@[k]@ == s@);
        }
    }
    false
}

/// Adds the packages of one more list to those collected so far, skipping any already there.
pub fn merge_packages(packages: &mut Vec<String>, more: Vec<String>)
    ensures
        strings_of(final(packages)@) == merged(strings_of(old(packages)@), strings_of(more@)),
{
    let mut i: usize = 0;
    assert(strings_of(more@).skip(0) =~= strings_of(more@));
    while i < more.len()
        invariant
            i <= more@.len(),
            merged(strings_of(packages@), strings_of(more@).skip(i as int)) == merged(
                strings_of(old(packages)@),
                strings_of(more@),
            ),
        decreases more@.len() - i,
    {
        proof {
            let tail = strings_of(more@).skip(i as int);
            assert(tail[0] == more@[i as int]@);
            assert(tail.drop_first() =~= strings_of(more@).skip(i + 1));
        }
        if !contains_string(packages, &more[i]) {
            let ghost before = strings_of(packages@);
            packages.push(more[i].clone());
            assert(strings_of(packages@) =~= before.push(more@[i as int]@));
        }
        i = i + 1;
    }
    assert(strings_of(more@).skip(more@.len() as int) =~= Seq::<Seq<char>>::empty());
}

/// How a package list is printed.
#[derive(Clone, Copy, Debug, PartialEq, Eq, Structural)]
pub enum OutputFormat {
    /// One package per line.
    Lines,
    /// All on one line, separated by commas.
    Comma,
}

/// The package names, each followed by a line feed.
pub open spec fn lines_text(parts: Seq<Seq<char>>) -> Seq<char>
    decreases parts.len(),
{
    if parts.len() == 0 {
        Seq::empty()
    } else {
        lines_text(parts.drop_last()) + parts.last() + seq!['\n']
    }
}

/// The printed package list.
pub fn render_package_list(packages: &Vec<String>, format: OutputFormat) -> (r: String)
    ensures
        format == OutputFormat::Lines ==> r@ == lines_text(strings_of(packages@)),
        format == OutputFormat::Comma ==> r@ == joined(strings_of(packages@), ","@) + seq!['\n'],
{
    proof {
        reveal_strlit("\n");
        reveal_strlit(",");
    }
    let mut out = String::new();
    match format {
        OutputFormat::Lines => {
            let mut i: usize = 0;
            while i < packages.len()
                invariant
                    i <= packages@.len(),
                    out@ == lines_text(strings_of(packages@.take(i as int))),
                decreases packages@.len() - i,
            {
                out.append(packages[i].as_str());
                out.append("\n");
                proof {
                    let t = strings_of(packages@.take(i + 1));
                    assert(t.drop_last() =~= strings_of(packages@.take(i as int)));
                    assert(t.last() == packages@[i as int]@);
                    assert(lines_text(t) == lines_text(t.drop_last()) + t.last() + seq!['\n']);
                    reveal_strlit("\n");
                }
                i = i + 1;
            }
            assert(packages@.take(packages@.len() as int) =~= packages@);
        },
        OutputFormat::Comma => {
            push_joined(&mut out, packages, ",");
            out.append("\n");
        },
    }
    out
}

/// The package manifest of a release: the names joined by line feeds, and a final line feed.
pub fn package_manifest(packages: &Vec<String>) -> (r: String)
    ensures
        r@ == joined(strings_of(packages@), "\n"@) + seq!['\n'],
{
    proof {
        reveal_strlit("\n");
    }
    let mut out = String::new();
    push_joined(&mut out, packages, "\n");
    out.append("\n");
    out
}

/// The `SHA256SUMS` line: the digest, two spaces, the file name, a line feed.
pub fn sha256sums_line(sha256: &str, name: &str) -> (r: String)
    ensures
        r@ == sha256@ + seq![' ', ' '] + name@ + seq!['\n'],
{
    proof {
        reveal_strlit("  ");
        reveal_strlit("\n");
    }
    let mut out = String::from_str(sha256);
    out.append("  ");
    out.append(name);
    out.append("\n");
    out
}

/// The one artifact of a release.
pub struct Artifact {
    pub name: String,
    pub artifact_type: &'static str,
    pub arch: &'static str,
    pub sha256: String,
}

/// The release record that is stored beside the image, as JSON.
pub struct ReleaseManifest {
    pub project: &'static str,
    pub component: &'static str,
    pub version: String,
    pub timestamp: String,
    pub channel: String,
    pub artifacts: Vec<Artifact>,
    pub base: String,
}

/// The manifest of a bootstrap release: the project and component fixed, one raw amd64 VM
/// image as its artifact.
pub fn release_manifest(
    version: String,
    timestamp: String,
    channel: String,
    artifact_name: String,
    sha256: String,
    base: String,
) -> (r: ReleaseManifest)
    ensures
        r.project == "TUFF-RADICAL",
        r.component == "distro-bootstrap",
        r.version == version,
        r.timestamp == timestamp,
        r.channel == channel,
        r.base == base,
        r.artifacts@.len() == 1,
        r.artifacts@[0].name == artifact_name,
        r.artifacts@[0].artifact_type == "raw-vm-image",
        r.artifacts@[0].arch == "amd64",
        r.artifacts@[0].sha256 == sha256,
{
    ReleaseManifest {
        project: "TUFF-RADICAL",
        component: "distro-bootstrap",
        version,
        timestamp,
        channel,
        artifacts: vec![Artifact { name: artifact_name, artifact_type: "raw-vm-image", arch: "amd64", sha256 }],
        base,
    }
}

} // verus!
