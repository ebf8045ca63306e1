use vstd::prelude::*;

verus! {

/// Prefix of every job name; the first six characters of the identifier follow it.
pub const JOB_PREFIX: &'static str = "blackhole-torrent-";

/// Namespace the jobs are created in.
pub const NAMESPACE: &'static str = "media-server";

/// Container image that performs the download.
pub const IMAGE: &'static str = "ghcr.io/torrentdam/cmd:latest";

/// Root of the per-item working directories while a download runs.
pub const DOWNLOADING_ROOT: &'static str = "downloading/";

/// Root of the per-item directories once a download has finished.
pub const COMPLETE_ROOT: &'static str = "complete/";

/// Seconds a finished job is kept before the cluster deletes it.
pub const TTL_SECONDS_AFTER_FINISHED: i32 = 60;

/// Seconds a job may run before the cluster fails it (six hours).
pub const ACTIVE_DEADLINE_SECONDS: i64 = 21600;

/// Number of identifier characters that go into a job name.
pub const NAME_HASH_CHARS: usize = 6;

/// One resource quantity, such as `cpu` = `500m`.
pub struct Quantity {
    pub resource: String,
    pub amount: String,
}

/// One dynamic resource claim a container may use.
pub struct ResourceClaim {
    pub name: String,
    pub request: Option<String>,
}

/// Resource requests and limits, as the configuration resource carries them.
pub struct Resources {
    pub claims: Option<Vec<ResourceClaim>>,
    pub limits: Option<Vec<Quantity>>,
    pub requests: Option<Vec<Quantity>>,
}

pub ghost struct ResourcesView {
    pub claims: Option<Seq<(Seq<char>, Option<Seq<char>>)>>,
    pub limits: Option<Seq<(Seq<char>, Seq<char>)>>,
    pub requests: Option<Seq<(Seq<char>, Seq<char>)>>,
}

impl View for Quantity {
    type V = (Seq<char>, Seq<char>);

    open spec fn view(&self) -> (Seq<char>, Seq<char>) {
        (self.resource@, self.amount@)
    }
}

impl View for ResourceClaim {
    type V = (Seq<char>, Option<Seq<char>>);

    open spec fn view(&self) -> (Seq<char>, Option<Seq<char>>) {
        (self.name@, match self.request {
            Some(r) => Some(r@),
            None => None,
        })
    }
}

pub open spec fn quantities_view(v: Seq<Quantity>) -> Seq<(Seq<char>, Seq<char>)> {
    v.map_values(|q: Quantity| q@)
}

pub open spec fn claims_view(v: Seq<ResourceClaim>) -> Seq<(Seq<char>, Option<Seq<char>>)> {
    v.map_values(|c: ResourceClaim| c@)
}

impl View for Resources {
    type V = ResourcesView;

    open spec fn view(&self) -> ResourcesView {
        ResourcesView {
            claims: match self.claims {
                Some(c) => Some(claims_view(c@)),
                None => None,
            },
            limits: match self.limits {
                Some(l) => Some(quantities_view(l@)),
                None => None,
            },
            requests: match self.requests {
                Some(q) => Some(quantities_view(q@)),
                None => None,
            },
        }
    }
}

pub open spec fn opt_resources_view(r: Option<Resources>) -> Option<ResourcesView> {
    match r {
        Some(r) => Some(r@),
        None => None,
    }
}

fn copy_opt_string(s: &Option<String>) -> (r: Option<String>)
    ensures
        r == *s,
{
    match s {
        Some(v) => Some(v.clone()),
        None => None,
    }
}

fn copy_quantities(v: &Vec<Quantity>) -> (r: Vec<Quantity>)
    ensures
        quantities_view(r@) == quantities_view(v@),
{
    let mut r: Vec<Quantity> = Vec::new();
    let mut i: usize = 0;
    while i < v.len()
        invariant
            i <= v@.len(),
            r@.len() == i,
            forall|k: int| 0 <= k < i ==> r@[k]@ == v@[k]@,
        decreases v@.len() - i,
    {
        r.push(Quantity { resource: v[i].resource.clone(), amount: v[i].amount.clone() });
        i = i + 1;
    }
    assert(quantities_view(r@) =~= quantities_view(v@));
    r
}

fn copy_claims(v: &Vec<ResourceClaim>) -> (r: Vec<ResourceClaim>)
    ensures
        claims_view(r@) == claims_view(v@),
{
    let mut r: Vec<ResourceClaim> = Vec::new();
    let mut i: usize = 0;
    while i < v.len()
        invariant
            i <= v@.len(),
            r@.len() == i,
            forall|k: int| 0 <= k < i ==> r@[k]@ == v@[k]@,
        decreases v@.len() - i,
    {
        r.push(ResourceClaim { name: v[i].name.clone(), request: copy_opt_string(&v[i].request) });
        i = i + 1;
    }
    assert(claims_view(r@) =~= claims_view(v@));
    r
}

impl Resources {
    /// A copy with the same claims, limits and requests.
    pub fn duplicate(&self) -> (r: Resources)
        ensures
            r@ == self@,
    {
        let claims = match &self.claims {
            Some(c) => Some(copy_claims(c)),
            None => None,
        };
        let limits = match &self.limits {
            Some(l) => Some(copy_quantities(l)),
            None => None,
        };
        let requests = match &self.requests {
            Some(q) => Some(copy_quantities(q)),
            None => None,
        };
        Resources { claims, limits, requests }
    }
}

/// Copies optional resource hints.
pub fn copy_resources(r: &Option<Resources>) -> (c: Option<Resources>)
    ensures
        opt_resources_view(c) == opt_resources_view(*r),
{
    match r {
        Some(r) => Some(r.duplicate()),
        None => None,
    }
}

/// The spec of the configuration resource: hints copied into every job.
pub struct BlackholeSpec {
    pub resources: Option<Resources>,
}

impl View for BlackholeSpec {
    type V = Option<ResourcesView>;

    open spec fn view(&self) -> Option<ResourcesView> {
        opt_resources_view(self.resources)
    }
}

impl BlackholeSpec {
    /// A copy holding the same hints.
    pub fn duplicate(&self) -> (r: BlackholeSpec)
        ensures
            r@ == self@,
    {
        BlackholeSpec { resources: copy_resources(&self.resources) }
    }
}

/// Everything the cluster needs to create one download job.
pub struct JobDescription {
    pub name: String,
    pub namespace: String,
    pub restart_policy: String,
    pub container_name: String,
    pub image: String,
    pub args: Vec<String>,
    pub working_dir: String,
    pub env_name: String,
    pub env_value: String,
    pub volume_name: String,
    pub volume_sub_path: String,
    pub claim_name: String,
    pub resources: Option<Resources>,
    pub ttl_seconds_after_finished: i32,
    pub active_deadline_seconds: i64,
}

/// The name of the job for an identifier: the prefix, then its first six characters.
pub open spec fn job_name_of(info_hash: Seq<char>) -> Seq<char> {
    JOB_PREFIX@ + info_hash.subrange(0, NAME_HASH_CHARS as int)
}

/// The working directory of an item while its download runs.
pub open spec fn downloading_dir_of(file_name: Seq<char>) -> Seq<char> {
    DOWNLOADING_ROOT@ + file_name
}

/// The directory of an item once its download has finished.
pub open spec fn complete_dir_of(file_name: Seq<char>) -> Seq<char> {
    COMPLETE_ROOT@ + file_name
}

/// The name of the job that downloads the content with this identifier.
pub fn job_name(info_hash: &str) -> (r: String)
    requires
        info_hash@.len() >= NAME_HASH_CHARS,
    ensures
        r@ == job_name_of(info_hash@),
{
    String::from_str(JOB_PREFIX).concat(info_hash.substring_char(0, NAME_HASH_CHARS))
}

/// Working directory of an intake item while its download runs.
pub fn downloading_dir(file_name: &str) -> (r: String)
    ensures
        r@ == downloading_dir_of(file_name@),
{
    String::from_str(DOWNLOADING_ROOT).concat(file_name)
}

/// Directory an intake item's download is moved to once finished.
pub fn complete_dir(file_name: &str) -> (r: String)
    ensures
        r@ == complete_dir_of(file_name@),
{
    String::from_str(COMPLETE_ROOT).concat(file_name)
}

/// What a job description built for an identifier and an intake file holds.
pub open spec fn describes(
    d: JobDescription,
    info_hash: Seq<char>,
    file_name: Seq<char>,
    hints: Option<ResourcesView>,
) -> bool {
    &&& d.name@ == job_name_of(info_hash)
    &&& d.namespace@ == NAMESPACE@
    &&& d.restart_policy@ == "Never"@
    &&& d.container_name@ == "echo"@
    &&& d.image@ == IMAGE@
    &&& d.args@.len() == 3
    &&& d.args@[0]@ == "download"@
    &&& d.args@[1]@ == "--info-hash"@
    &&& d.args@[2]@ == info_hash
    &&& d.working_dir@ == "/data"@
    &&& d.env_name@ == "INFO_HASH"@
    &&& d.env_value@ == info_hash
    &&& d.volume_name@ == "movies"@
    &&& d.volume_sub_path@ == downloading_dir_of(file_name)
    &&& d.claim_name@ == "movies"@
    &&& opt_resources_view(d.resources) == hints
    &&& d.ttl_seconds_after_finished == TTL_SECONDS_AFTER_FINISHED
    &&& d.active_deadline_seconds == ACTIVE_DEADLINE_SECONDS
}

/// Builds the job that downloads `info_hash` into the working directory of
/// `file_name`, with the resource hints of the configuration copied verbatim.
pub fn build_job(info_hash: &str, file_name: &str, config: &BlackholeSpec) -> (r: JobDescription)
    requires
        info_hash@.len() >= NAME_HASH_CHARS,
    ensures
        describes(r, info_hash@, file_name@, config@),
{
    let mut args: Vec<String> = Vec::new();
    args.push(String::from_str("download"));
    args.push(String::from_str("--info-hash"));
    args.push(String::from_str(info_hash));
    JobDescription {
        name: job_name(info_hash),
        namespace: String::from_str(NAMESPACE),
        restart_policy: String::from_str("Never"),
        container_name: String::from_str("echo"),
        image: String::from_str(IMAGE),
        args,
        working_dir: String::from_str("/data"),
        env_name: String::from_str("INFO_HASH"),
        env_value: String::from_str(info_hash),
        volume_name: String::from_str("movies"),
        volume_sub_path: downloading_dir(file_name),
        claim_name: String::from_str("movies"),
        resources: copy_resources(&config.resources),
        ttl_seconds_after_finished: TTL_SECONDS_AFTER_FINISHED,
        active_deadline_seconds: ACTIVE_DEADLINE_SECONDS,
    }
}

} // verus!
