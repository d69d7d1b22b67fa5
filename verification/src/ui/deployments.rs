//! The images on disk, as `bootc status --json` tells them.
use crate::privileged::{resolve_argv, resolved, Privilege};
use crate::text;
use crate::ui::image_info::{parse_image_ref_fields, ref_fields};
use vstd::prelude::*;

verus! {

/// A deployment in the history list.
#[derive(Debug, PartialEq)]
pub struct MockDeployment {
    pub id: String,
    /// `current`, `staged`, `previous` or `remote`.
    pub state: String,
    pub title: String,
    pub image: String,
    pub tag: String,
    pub digest: String,
    pub deployed: String,
    pub deployed_full: String,
    pub size: String,
    pub kernel: String,
    pub package_count: u32,
    pub signer: String,
    pub pinned: bool,
}

/// What a deployment is.
#[verifier::ext_equal]
pub struct DeploymentView {
    pub id: Seq<char>,
    pub state: Seq<char>,
    pub title: Seq<char>,
    pub image: Seq<char>,
    pub tag: Seq<char>,
    pub digest: Seq<char>,
    pub deployed: Seq<char>,
    pub deployed_full: Seq<char>,
    pub size: Seq<char>,
    pub kernel: Seq<char>,
    pub package_count: u32,
    pub signer: Seq<char>,
    pub pinned: bool,
}

impl DeepView for MockDeployment {
    type V = DeploymentView;

    open spec fn deep_view(&self) -> DeploymentView {
        DeploymentView {
            id: self.id@,
            state: self.state@,
            title: self.title@,
            image: self.image@,
            tag: self.tag@,
            digest: self.digest@,
            deployed: self.deployed@,
            deployed_full: self.deployed_full@,
            size: self.size@,
            kernel: self.kernel@,
            package_count: self.package_count,
            signer: self.signer@,
            pinned: self.pinned,
        }
    }
}

impl Clone for MockDeployment {
    fn clone(&self) -> (r: Self)
        ensures
            r.deep_view() == self.deep_view(),
    {
        MockDeployment {
            id: self.id.clone(),
            state: self.state.clone(),
            title: self.title.clone(),
            image: self.image.clone(),
            tag: self.tag.clone(),
            digest: self.digest.clone(),
            deployed: self.deployed.clone(),
            deployed_full: self.deployed_full.clone(),
            size: self.size.clone(),
            kernel: self.kernel.clone(),
            package_count: self.package_count,
            signer: self.signer.clone(),
            pinned: self.pinned,
        }
    }
}

// ── JSON ─────────────────────────────────────────────────────────────────────

/// What stands at a place of a JSON document.
#[derive(Debug, PartialEq)]
pub enum JsonNode {
    /// The document is not JSON.
    NotJson,
    /// There is no such place.
    Missing,
    /// `null`.
    Null,
    Bool(bool),
    Text(String),
    /// A number, an array or an object.
    Other,
}

/// What that is.
#[verifier::ext_equal]
pub enum NodeKind {
    NotJson,
    Missing,
    Null,
    Bool(bool),
    Text(Seq<char>),
    Other,
}

impl DeepView for JsonNode {
    type V = NodeKind;

    open spec fn deep_view(&self) -> NodeKind {
        match self {
            JsonNode::NotJson => NodeKind::NotJson,
            JsonNode::Missing => NodeKind::Missing,
            JsonNode::Null => NodeKind::Null,
            JsonNode::Bool(b) => NodeKind::Bool(*b),
            JsonNode::Text(s) => NodeKind::Text(s@),
            JsonNode::Other => NodeKind::Other,
        }
    }
}

/// What `serde_json` finds in a document at a JSON pointer.
pub uninterp spec fn json_at(doc: Seq<u8>, pointer: Seq<char>) -> NodeKind;

/// `serde_json::from_slice` of a document, and `Value::pointer` of what it gives:
/// the value at a place, of which texts and truth values are kept. What JSON is,
/// and what a pointer means, is left to `serde_json`; the result depends on the
/// document and the pointer alone.
#[verifier::external_body]
fn json_node(doc: &[u8], pointer: &str) -> (r: JsonNode)
    ensures
        r.deep_view() == json_at(doc@, pointer@),
{
    match serde_json::from_slice::<serde_json::Value>(doc) {
        Err(_) => JsonNode::NotJson,
        Ok(v) => match v.pointer(pointer) {
            None => JsonNode::Missing,
            Some(serde_json::Value::Null) => JsonNode::Null,
            Some(serde_json::Value::Bool(b)) => JsonNode::Bool(*b),
            Some(serde_json::Value::String(s)) => JsonNode::Text(s.clone()),
            Some(_) => JsonNode::Other,
        },
    }
}

/// The text at a place.
pub open spec fn text_of(k: NodeKind) -> Option<Seq<char>> {
    match k {
        NodeKind::Text(s) => Some(s),
        _ => None,
    }
}

fn text_in(n: JsonNode) -> (r: Option<String>)
    ensures
        r.deep_view() == text_of(n.deep_view()),
{
    match n {
        JsonNode::Text(s) => Some(s),
        _ => None,
    }
}

// ── What bootc says ──────────────────────────────────────────────────────────

/// An image that bootc tells of: its reference, version, digest, time, and
/// whether it is pinned, as far as it says so.
#[derive(Debug, PartialEq)]
pub struct BootcEntry {
    pub image: Option<String>,
    pub version: Option<String>,
    pub digest: Option<String>,
    pub timestamp: Option<String>,
    pub pinned: Option<bool>,
}

/// What such an image is.
#[verifier::ext_equal]
pub struct BootcEntryView {
    pub image: Option<Seq<char>>,
    pub version: Option<Seq<char>>,
    pub digest: Option<Seq<char>>,
    pub timestamp: Option<Seq<char>>,
    pub pinned: Option<bool>,
}

impl DeepView for BootcEntry {
    type V = BootcEntryView;

    open spec fn deep_view(&self) -> BootcEntryView {
        BootcEntryView {
            image: self.image.deep_view(),
            version: self.version.deep_view(),
            digest: self.digest.deep_view(),
            timestamp: self.timestamp.deep_view(),
            pinned: self.pinned,
        }
    }
}

/// The status of the host: which images it has, as far as bootc tells.
#[derive(Debug, PartialEq)]
pub struct BootcStatus {
    pub staged: Option<BootcEntry>,
    pub booted: Option<BootcEntry>,
    pub rollback: Option<BootcEntry>,
}

/// What a status is.
#[verifier::ext_equal]
pub struct StatusDoc {
    pub staged: Option<BootcEntryView>,
    pub booted: Option<BootcEntryView>,
    pub rollback: Option<BootcEntryView>,
}

impl DeepView for BootcStatus {
    type V = StatusDoc;

    open spec fn deep_view(&self) -> StatusDoc {
        StatusDoc {
            staged: self.staged.deep_view(),
            booted: self.booted.deep_view(),
            rollback: self.rollback.deep_view(),
        }
    }
}

/// The image below a place of a document; none where there is nothing, or
/// `null`.
pub open spec fn entry_at(doc: Seq<u8>, base: Seq<char>) -> Option<BootcEntryView> {
    match json_at(doc, base) {
        NodeKind::NotJson => None,
        NodeKind::Missing => None,
        NodeKind::Null => None,
        _ => {
            let nested = json_at(doc, base + "/image/image/image"@);
            Some(
                BootcEntryView {
                    image: if nested is Missing {
                        text_of(json_at(doc, base + "/image/image"@))
                    } else {
                        text_of(nested)
                    },
                    version: text_of(json_at(doc, base + "/image/version"@)),
                    digest: text_of(json_at(doc, base + "/image/imageDigest"@)),
                    timestamp: text_of(json_at(doc, base + "/image/timestamp"@)),
                    pinned: match json_at(doc, base + "/pinned"@) {
                        NodeKind::Bool(b) => Some(b),
                        _ => None,
                    },
                },
            )
        },
    }
}

/// The status that a document tells; none where it is not JSON.
pub open spec fn status_at(doc: Seq<u8>) -> Option<StatusDoc> {
    if json_at(doc, ""@) is NotJson {
        None
    } else {
        Some(
            StatusDoc {
                staged: entry_at(doc, "/status/staged"@),
                booted: entry_at(doc, "/status/booted"@),
                rollback: entry_at(doc, "/status/rollback"@),
            },
        )
    }
}

fn node_below(doc: &[u8], base: &str, rest: &str) -> (r: JsonNode)
    ensures
        r.deep_view() == json_at(doc@, base@ + rest@),
{
    let pointer: String = text::cat2(base, rest);
    json_node(doc, pointer.as_str())
}

fn read_entry(doc: &[u8], base: &str) -> (r: Option<BootcEntry>)
    ensures
        r.deep_view() == entry_at(doc@, base@),
{
    match json_node(doc, base) {
        JsonNode::NotJson => return None,
        JsonNode::Missing => return None,
        JsonNode::Null => return None,
        _ => {},
    }
    let image: Option<String> = match node_below(doc, base, "/image/image/image") {
        JsonNode::Missing => text_in(node_below(doc, base, "/image/image")),
        other => text_in(other),
    };
    let pinned: Option<bool> = match node_below(doc, base, "/pinned") {
        JsonNode::Bool(b) => Some(b),
        _ => None,
    };
    Some(
        BootcEntry {
            image,
            version: text_in(node_below(doc, base, "/image/version")),
            digest: text_in(node_below(doc, base, "/image/imageDigest")),
            timestamp: text_in(node_below(doc, base, "/image/timestamp")),
            pinned,
        },
    )
}

/// The status that the output of `bootc status --json` tells.
pub fn read_bootc_status(doc: &[u8]) -> (r: Option<BootcStatus>)
    ensures
        r.deep_view() == status_at(doc@),
{
    match json_node(doc, "") {
        JsonNode::NotJson => None,
        _ => Some(
            BootcStatus {
                staged: read_entry(doc, "/status/staged"),
                booted: read_entry(doc, "/status/booted"),
                rollback: read_entry(doc, "/status/rollback"),
            },
        ),
    }
}

/// Where the status of the host comes from.
#[derive(Debug, PartialEq)]
pub enum StatusSource {
    /// From nowhere: an image is only pretended.
    Nowhere,
    /// From an earlier answer.
    Cache,
    /// From this command.
    Command(Vec<String>),
}

/// Where the status of the host comes from. It is asked for once, without
/// privileges, and never while an image is pretended.
pub fn get_cached_bootc_status(mocked: bool, cached: bool, flatpak: bool) -> (r: StatusSource)
    ensures
        match r {
            StatusSource::Nowhere => mocked,
            StatusSource::Cache => !mocked && cached,
            StatusSource::Command(argv) => !mocked && !cached && argv.deep_view() == resolved(
                seq!["bootc"@, "status"@, "--json"@],
                Privilege::Host,
                flatpak,
            ),
        },
{
    if mocked {
        return StatusSource::Nowhere;
    }
    if cached {
        return StatusSource::Cache;
    }
    let argv: [&str; 3] = ["bootc", "status", "--json"];
    assert(argv.deep_view() =~= seq!["bootc"@, "status"@, "--json"@]);
    StatusSource::Command(resolve_argv(&argv, Privilege::Host, flatpak))
}

/// The kernel that the host runs: what `uname -r` printed, if anything.
pub open spec fn kernel_name(answer: Option<Seq<char>>) -> Seq<char> {
    match answer {
        Some(out) => if text::trimmed(out).len() > 0 {
            text::trimmed(out)
        } else {
            "—"@
        },
        None => "—"@,
    }
}

/// The kernel that the host runs; `None` where it could not be asked.
pub fn get_host_kernel(answer: Option<&str>) -> (r: String)
    ensures
        r@ == kernel_name(
            match answer {
                Some(out) => Some(out@),
                None => None,
            },
        ),
{
    match answer {
        Some(out) => {
            let name: String = text::trim(out);
            if name.as_str().is_empty() {
                "—".to_string()
            } else {
                name
            }
        },
        None => "—".to_string(),
    }
}

// ── The booted image ─────────────────────────────────────────────────────────

/// The beginning of a digest: eight characters, behind the name of its hash.
pub open spec fn digest_head(digest: Seq<char>) -> Seq<char> {
    let bare = match text::without_prefix(digest, "sha256:"@) {
        Some(rest) => rest,
        None => digest,
    };
    bare.take(
        if 8 < bare.len() {
            8
        } else {
            bare.len() as int
        },
    )
}

/// Version and digest of the booted image, as far as they are known.
pub open spec fn booted_summary(status: StatusDoc) -> Option<Seq<char>> {
    match status.booted {
        None => None,
        Some(b) => match (b.version, b.digest) {
            (Some(v), Some(d)) => Some(v + "  ·  sha"@ + digest_head(d)),
            (Some(v), None) => Some(v),
            (None, Some(d)) => Some("sha"@ + digest_head(d)),
            (None, None) => None,
        },
    }
}

fn head_of_digest(digest: &str) -> (r: String)
    ensures
        r@ == digest_head(digest@),
{
    match text::strip_prefix(digest, "sha256:") {
        Some(rest) => text::take_chars(rest.as_str(), 8),
        None => text::take_chars(digest, 8),
    }
}

/// Version and digest of the booted image, as far as they are known.
pub fn parse_booted_image_summary(status: &BootcStatus) -> (r: Option<String>)
    ensures
        r.deep_view() == booted_summary(status.deep_view()),
{
    match &status.booted {
        None => None,
        Some(b) => match (&b.version, &b.digest) {
            (Some(v), Some(d)) => {
                let head: String = head_of_digest(d.as_str());
                Some(text::cat3(v.as_str(), "  ·  sha", head.as_str()))
            },
            (Some(v), None) => Some(v.clone()),
            (None, Some(d)) => {
                let head: String = head_of_digest(d.as_str());
                Some(text::cat2("sha", head.as_str()))
            },
            (None, None) => None,
        },
    }
}

// ── Deployments ──────────────────────────────────────────────────────────────

/// A text, or the empty one.
pub open spec fn or_empty(s: Option<Seq<char>>) -> Seq<char> {
    match s {
        Some(s) => s,
        None => ""@,
    }
}

/// The day of a timestamp: its first ten bytes.
pub open spec fn day_of(timestamp: Seq<char>) -> Seq<char> {
    if text::byte_len(timestamp) >= 10 {
        text::first_bytes(timestamp, 10)
    } else {
        "recently"@
    }
}

/// The row of an image.
pub open spec fn deployment_of(
    e: BootcEntryView,
    id: Seq<char>,
    state: Seq<char>,
    deployed: Seq<char>,
    kernel: Seq<char>,
    pinned: bool,
) -> DeploymentView {
    let f = ref_fields(or_empty(e.image));
    DeploymentView {
        id,
        state,
        title: f.name,
        image: or_empty(e.image),
        tag: f.tag,
        digest: or_empty(e.digest),
        deployed,
        deployed_full: "Built: "@ + day_of(or_empty(e.timestamp)),
        size: "—"@,
        kernel,
        package_count: 0,
        signer: f.org + " (sigstore)"@,
        pinned,
    }
}

/// Whether an image is pinned.
pub open spec fn is_pinned(e: BootcEntryView) -> bool {
    e.pinned == Some(true)
}

/// Whether the timestamp of an image has a day.
pub open spec fn has_day(e: Option<BootcEntryView>) -> bool {
    match e {
        Some(e) => text::cuts(or_empty(e.timestamp), 10),
        None => true,
    }
}

/// Whether every timestamp of a status has a day.
pub open spec fn has_days(status: StatusDoc) -> bool {
    has_day(status.staged) && has_day(status.booted) && has_day(status.rollback)
}

/// The images on disk: the staged one, the booted one, the one to roll back to.
pub open spec fn deployments_of(status: StatusDoc, kernel: Seq<char>) -> Seq<DeploymentView> {
    (match status.staged {
        Some(e) => seq![
            deployment_of(e, "d-staged"@, "staged"@, "Staged · pending reboot"@, "—"@, false),
        ],
        None => Seq::empty(),
    }) + (match status.booted {
        Some(e) => seq![
            deployment_of(e, "d-current"@, "current"@, "Currently booted"@, kernel, is_pinned(e)),
        ],
        None => Seq::empty(),
    }) + (match status.rollback {
        Some(e) => seq![
            deployment_of(e, "d-rollback"@, "previous"@, "Rollback target"@, "—"@, is_pinned(e)),
        ],
        None => Seq::empty(),
    })
}

fn text_or_empty(s: &Option<String>) -> (r: String)
    ensures
        r@ == or_empty(s.deep_view()),
{
    match s {
        Some(s) => s.clone(),
        None => "".to_string(),
    }
}

fn row_of(
    e: &BootcEntry,
    id: &str,
    state: &str,
    deployed: &str,
    kernel: &str,
    pinned: bool,
) -> (r: MockDeployment)
    requires
        has_day(Some(e.deep_view())),
    ensures
        r.deep_view() == deployment_of(e.deep_view(), id@, state@, deployed@, kernel@, pinned),
{
    let image: String = text_or_empty(&e.image);
    let timestamp: String = text_or_empty(&e.timestamp);
    let (name, tag, org) = parse_image_ref_fields(image.as_str());
    let day: String = match text::cut(timestamp.as_str(), 10) {
        Some(day) => day,
        None => "recently".to_string(),
    };
    MockDeployment {
        id: id.to_string(),
        state: state.to_string(),
        title: name,
        image,
        tag,
        digest: text_or_empty(&e.digest),
        deployed: deployed.to_string(),
        deployed_full: text::cat2("Built: ", day.as_str()),
        size: "—".to_string(),
        kernel: kernel.to_string(),
        package_count: 0,
        signer: text::cat2(org.as_str(), " (sigstore)"),
        pinned,
    }
}

fn pinned_of(e: &BootcEntry) -> (r: bool)
    ensures
        r == is_pinned(e.deep_view()),
{
    match e.pinned {
        Some(b) => b,
        None => false,
    }
}

/// The images on disk, or none where the status tells of none.
pub fn get_real_deployments_from_json(status: &BootcStatus, kernel: &str) -> (r: Option<
    Vec<MockDeployment>,
>)
    requires
        has_days(status.deep_view()),
    ensures
        r.deep_view() == if deployments_of(status.deep_view(), kernel@).len() == 0 {
            None
        } else {
            Some(deployments_of(status.deep_view(), kernel@))
        },
{
    let ghost want = deployments_of(status.deep_view(), kernel@);
    let mut out: Vec<MockDeployment> = Vec::new();
    if let Some(e) = &status.staged {
        out.push(row_of(e, "d-staged", "staged", "Staged · pending reboot", "—", false));
    }
    if let Some(e) = &status.booted {
        out.push(
            row_of(e, "d-current", "current", "Currently booted", kernel, pinned_of(e)),
        );
    }
    if let Some(e) = &status.rollback {
        out.push(row_of(e, "d-rollback", "previous", "Rollback target", "—", pinned_of(e)));
    }
    assert(out.deep_view() =~= want);
    if out.len() == 0 {
        None
    } else {
        Some(out)
    }
}

fn entry_has_day(e: &Option<BootcEntry>) -> (r: bool)
    ensures
        r == has_day(e.deep_view()),
{
    match e {
        Some(e) => {
            let timestamp: String = text_or_empty(&e.timestamp);
            text::can_cut(timestamp.as_str(), 10)
        },
        None => true,
    }
}

/// Whether every timestamp of a status has a day.
pub fn timestamps_have_days(status: &BootcStatus) -> (r: bool)
    ensures
        r == has_days(status.deep_view()),
{
    entry_has_day(&status.staged) && entry_has_day(&status.booted) && entry_has_day(
        &status.rollback,
    )
}

/// A document whose timestamps have no day.
#[derive(Debug, Clone, Copy, PartialEq, Eq, Structural)]
pub struct BadTimestamp;

/// The images on disk, from the output of `bootc status --json`: none where it
/// is not JSON or tells of none, and an error where a timestamp has no day.
pub fn get_real_deployments(doc: &[u8], kernel: &str) -> (r: Result<
    Option<Vec<MockDeployment>>,
    BadTimestamp,
>)
    ensures
        match status_at(doc@) {
            None => r matches Ok(none) && none is None,
            Some(status) => match r {
                Err(_) => !has_days(status),
                Ok(rows) => has_days(status) && rows.deep_view() == if deployments_of(
                    status,
                    kernel@,
                ).len() == 0 {
                    None
                } else {
                    Some(deployments_of(status, kernel@))
                },
            },
        },
{
    match read_bootc_status(doc) {
        None => Ok(None),
        Some(status) => {
            if timestamps_have_days(&status) {
                Ok(get_real_deployments_from_json(&status, kernel))
            } else {
                Err(BadTimestamp)
            }
        },
    }
}

/// The images on disk; no rows where nothing is known of them.
pub fn get_sample_deployments(known: Option<Vec<MockDeployment>>) -> (r: Vec<MockDeployment>)
    ensures
        r.deep_view() == match known.deep_view() {
            Some(rows) => rows,
            None => Seq::empty(),
        },
{
    match known {
        Some(rows) => rows,
        None => {
            let r: Vec<MockDeployment> = Vec::new();
            assert(r.deep_view() =~= Seq::<DeploymentView>::empty());
            r
        },
    }
}

/// At most one image is staged, one booted and one to roll back to, in this
/// order; the booted one has the kernel that runs.
pub proof fn law_deployments_are_in_order(status: StatusDoc, kernel: Seq<char>)
    ensures
        deployments_of(status, kernel).len() == (if status.staged is Some {
            1int
        } else {
            0
        }) + (if status.booted is Some {
            1int
        } else {
            0
        }) + (if status.rollback is Some {
            1int
        } else {
            0
        }),
        status.staged is Some ==> deployments_of(status, kernel)[0].state == "staged"@,
        status.booted is Some ==> {
            let i = if status.staged is Some {
                1int
            } else {
                0
            };
            &&& deployments_of(status, kernel)[i].state == "current"@
            &&& deployments_of(status, kernel)[i].kernel == kernel
        },
        status.rollback is Some ==> deployments_of(status, kernel).last().state == "previous"@,
{
}

/// Every image that `bootc` tells of has its row: with its reference and digest as they
/// are told, with the name and tag of that reference, and pinned only where `bootc` says
/// so. A staged image is never shown as pinned, and only the booted one has a kernel.
pub proof fn law_rows_show_what_bootc_tells(
    status: StatusDoc,
    kernel: Seq<char>,
    place: Seq<Seq<char>>,
    org: Seq<char>,
    name: Seq<char>,
    tag: Seq<char>,
    e: BootcEntryView,
)
    requires
        forall|i: int| 0 <= i < place.len() ==> !(#[trigger] place[i]).contains('/'),
        !org.contains('/'),
        !name.contains('/'),
        !tag.contains(':'),
        org.len() > 0,
        e.image == Some(text::joined(place.push(org).push(name), seq!['/']).push(':') + tag),
    ensures
        status.staged == Some(e) ==> ({
            let d = deployments_of(status, kernel)[0];
            d.state == "staged"@ && d.title == name && d.tag == tag && Some(d.image) == e.image
                && !d.pinned && (e.digest matches Some(x) ==> d.digest == x)
        }),
        status.booted == Some(e) ==> ({
            let d = deployments_of(status, kernel)[if status.staged is Some {
                1int
            } else {
                0
            }];
            d.state == "current"@ && d.title == name && d.tag == tag && Some(d.image) == e.image
                && (d.pinned <==> e.pinned == Some(true)) && (e.digest matches Some(x) ==> d.digest
                == x) && d.kernel == kernel
        }),
        status.rollback == Some(e) ==> ({
            let d = deployments_of(status, kernel).last();
            d.state == "previous"@ && d.title == name && d.tag == tag && Some(d.image) == e.image
                && (d.pinned <==> e.pinned == Some(true)) && (e.digest matches Some(x) ==> d.digest
                == x)
        }),
{
    crate::ui::image_info::law_reference_fields(place, org, name, tag);
    law_deployments_are_in_order(status, kernel);
    assert(or_empty(e.image) == e.image->0);
}

/// A digest is told by the first eight characters behind `sha256:`.
pub proof fn law_digest_is_shortened(hex: Seq<char>)
    requires
        hex.len() >= 8,
    ensures
        digest_head("sha256:"@ + hex) == hex.take(8),
        !text::begins(hex, "sha256:"@) ==> digest_head(hex) == hex.take(8),
{
    let full = "sha256:"@ + hex;
    reveal_strlit("sha256:");
    assert(full.subrange(0, 7) =~= "sha256:"@);
    assert(full.skip(7) =~= hex);
}

/// What is told of the booted image is its version and the head of its digest, as far as
/// they are known; nothing is told where neither is, or no image is booted.
pub proof fn law_summary_tells_what_is_known(status: StatusDoc)
    ensures
        booted_summary(status) is None <==> (status.booted matches Some(b) ==> b.version is None
            && b.digest is None),
        status.booted matches Some(b) ==> (b.version matches Some(v) ==> (booted_summary(status)
            matches Some(s) && text::begins(s, v))),
        status.booted matches Some(b) ==> (b.digest matches Some(d) ==> (booted_summary(status)
            matches Some(s) && text::ends(s, digest_head(d)))),
{
    if let Some(b) = status.booted {
        if let Some(v) = b.version {
            let s = booted_summary(status)->0;
            assert(s.subrange(0, v.len() as int) =~= v);
        }
        if let Some(d) = b.digest {
            let s = booted_summary(status)->0;
            let h = digest_head(d);
            assert(s.subrange(s.len() - h.len(), s.len() as int) =~= h);
        }
    }
}

/// Of a time stamp of one-byte characters the first ten are its day; a shorter one has
/// none.
pub proof fn law_time_stamp_has_its_day(stamp: Seq<char>)
    requires
        forall|i: int| 0 <= i < stamp.len() ==> (#[trigger] stamp[i]) as u32 <= 0x7f,
    ensures
        stamp.len() >= 10 ==> day_of(stamp) == stamp.take(10),
        stamp.len() < 10 ==> day_of(stamp) == "recently"@,
{
    text::law_ascii_text_is_cut_by_characters(stamp, 10);
    assert(stamp.len() == 10 ==> stamp.take(10) =~= stamp);
}

/// Each image is read where `bootc` tells of it, and each of its values where it stands
/// there. An image is there exactly where its place holds something.
pub proof fn law_status_is_read_where_it_stands(doc: Seq<u8>)
    requires
        !(json_at(doc, ""@) is NotJson),
    ensures
        ({
            let s = status_at(doc)->0;
            let booted = json_at(doc, "/status/booted"@);
            let staged = json_at(doc, "/status/staged"@);
            let rollback = json_at(doc, "/status/rollback"@);
            &&& status_at(doc) is Some
            &&& s.booted is None <==> booted is NotJson || booted is Missing || booted is Null
            &&& s.staged is None <==> staged is NotJson || staged is Missing || staged is Null
            &&& s.rollback is None <==> rollback is NotJson || rollback is Missing
                || rollback is Null
            &&& s.booted matches Some(e) ==> {
                &&& json_at(doc, "/status/booted/image/image/image"@) matches NodeKind::Text(t)
                    ==> e.image == Some(t)
                &&& json_at(doc, "/status/booted/image/version"@) matches NodeKind::Text(t)
                    ==> e.version == Some(t)
                &&& json_at(doc, "/status/booted/image/imageDigest"@) matches NodeKind::Text(t)
                    ==> e.digest == Some(t)
                &&& json_at(doc, "/status/booted/image/timestamp"@) matches NodeKind::Text(t)
                    ==> e.timestamp == Some(t)
                &&& json_at(doc, "/status/booted/pinned"@) matches NodeKind::Bool(b) ==> e.pinned
                    == Some(b)
            }
            &&& s.staged matches Some(e) ==> (json_at(
                doc,
                "/status/staged/image/image/image"@,
            ) matches NodeKind::Text(t) ==> e.image == Some(t))
            &&& s.rollback matches Some(e) ==> (json_at(
                doc,
                "/status/rollback/image/image/image"@,
            ) matches NodeKind::Text(t) ==> e.image == Some(t))
        }),
{
    reveal_strlit("/status/booted");
    reveal_strlit("/status/staged");
    reveal_strlit("/status/rollback");
    reveal_strlit("/image/image/image");
    reveal_strlit("/image/version");
    reveal_strlit("/image/imageDigest");
    reveal_strlit("/image/timestamp");
    reveal_strlit("/pinned");
    reveal_strlit("/status/booted/image/image/image");
    reveal_strlit("/status/staged/image/image/image");
    reveal_strlit("/status/rollback/image/image/image");
    reveal_strlit("/status/booted/image/version");
    reveal_strlit("/status/booted/image/imageDigest");
    reveal_strlit("/status/booted/image/timestamp");
    reveal_strlit("/status/booted/pinned");
    assert("/status/booted"@ + "/image/image/image"@ =~= "/status/booted/image/image/image"@);
    assert("/status/staged"@ + "/image/image/image"@ =~= "/status/staged/image/image/image"@);
    assert("/status/rollback"@ + "/image/image/image"@ =~= "/status/rollback/image/image/image"@);
    assert("/status/booted"@ + "/image/version"@ =~= "/status/booted/image/version"@);
    assert("/status/booted"@ + "/image/imageDigest"@ =~= "/status/booted/image/imageDigest"@);
    assert("/status/booted"@ + "/image/timestamp"@ =~= "/status/booted/image/timestamp"@);
    assert("/status/booted"@ + "/pinned"@ =~= "/status/booted/pinned"@);
}

/// The kernel is what the host printed, without the blanks round it.
pub proof fn law_kernel_is_what_the_host_prints(front: Seq<char>, name: Seq<char>, back: Seq<char>)
    requires
        forall|i: int| 0 <= i < front.len() ==> text::is_blank(#[trigger] front[i]),
        forall|i: int| 0 <= i < back.len() ==> text::is_blank(#[trigger] back[i]),
        name.len() > 0,
        !text::is_blank(name[0]),
        !text::is_blank(name.last()),
    ensures
        kernel_name(Some(front + name + back)) == name,
        kernel_name(Some(front)) == "—"@,
        kernel_name(None) == "—"@,
{
    text::law_trimming_takes_blanks_away(front, name, back);
}

/// Images whose time stamps are of one-byte characters can always be shown.
pub proof fn law_plain_time_stamps_can_be_shown(status: StatusDoc)
    requires
        status.staged matches Some(e) ==> (e.timestamp matches Some(t) ==> forall|i: int|
            0 <= i < t.len() ==> (#[trigger] t[i]) as u32 <= 0x7f),
        status.booted matches Some(e) ==> (e.timestamp matches Some(t) ==> forall|i: int|
            0 <= i < t.len() ==> (#[trigger] t[i]) as u32 <= 0x7f),
        status.rollback matches Some(e) ==> (e.timestamp matches Some(t) ==> forall|i: int|
            0 <= i < t.len() ==> (#[trigger] t[i]) as u32 <= 0x7f),
    ensures
        has_days(status),
{
    reveal_strlit("");
    if let Some(e) = status.staged {
        text::law_ascii_text_is_cut_by_characters(or_empty(e.timestamp), 10);
    }
    if let Some(e) = status.booted {
        text::law_ascii_text_is_cut_by_characters(or_empty(e.timestamp), 10);
    }
    if let Some(e) = status.rollback {
        text::law_ascii_text_is_cut_by_characters(or_empty(e.timestamp), 10);
    }
}

} // verus!
