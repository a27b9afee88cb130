//! Manifest extraction: normalizing workload documents of the recognized
//! kinds into a uniform list of workloads, each container carrying a
//! flattened, insertion-ordered mapping from variable name to observed value
//! or provenance descriptor.

use vstd::prelude::*;
use vstd::string::StringExecFns;
use crate::config::strings_view;

verus! {

/// How one env entry of a container gets its value.
#[derive(Debug)]
pub enum EnvValue {
    /// A literal value written in the manifest.
    Literal(String),
    /// Drawn from one key of a Secret.
    SecretKeyRef { name: String, key: String },
    /// Drawn from one key of a ConfigMap.
    ConfigMapKeyRef { name: String, key: String },
    /// Drawn from a field of the workload object.
    FieldRef { field_path: String },
    /// Drawn from a resource request or limit of the container.
    ResourceFieldRef { resource: String },
    /// An indirect source of a kind this tool does not recognize.
    UnknownSource,
}

/// Mathematical model of an [`EnvValue`].
pub enum EnvValueView {
    Literal(Seq<char>),
    SecretKeyRef { name: Seq<char>, key: Seq<char> },
    ConfigMapKeyRef { name: Seq<char>, key: Seq<char> },
    FieldRef { field_path: Seq<char> },
    ResourceFieldRef { resource: Seq<char> },
    UnknownSource,
}

impl View for EnvValue {
    type V = EnvValueView;

    open spec fn view(&self) -> EnvValueView {
        match self {
            EnvValue::Literal(s) => EnvValueView::Literal(s@),
            EnvValue::SecretKeyRef { name, key } => EnvValueView::SecretKeyRef {
                name: name@,
                key: key@,
            },
            EnvValue::ConfigMapKeyRef { name, key } => EnvValueView::ConfigMapKeyRef {
                name: name@,
                key: key@,
            },
            EnvValue::FieldRef { field_path } => EnvValueView::FieldRef { field_path: field_path@ },
            EnvValue::ResourceFieldRef { resource } => EnvValueView::ResourceFieldRef {
                resource: resource@,
            },
            EnvValue::UnknownSource => EnvValueView::UnknownSource,
        }
    }
}

/// One env entry of a container: a name and, when the manifest declares one,
/// its value or indirect source. An entry without a value contributes nothing
/// to the flattened mapping.
#[derive(Debug)]
pub struct EnvEntry {
    pub name: String,
    pub value: Option<EnvValue>,
}

/// Mathematical model of an [`EnvEntry`].
pub struct EnvEntryView {
    pub name: Seq<char>,
    pub value: Option<EnvValueView>,
}

impl View for EnvEntry {
    type V = EnvEntryView;

    open spec fn view(&self) -> EnvEntryView {
        EnvEntryView {
            name: self.name@,
            value: match self.value {
                Some(v) => Some(v@),
                None => None,
            },
        }
    }
}

/// One bulk-import reference of a container: an entire ConfigMap or Secret
/// (or both) imported as environment.
#[derive(Debug)]
pub struct EnvFromSource {
    pub config_map: Option<String>,
    pub secret: Option<String>,
}

/// Mathematical model of an [`EnvFromSource`].
pub struct EnvFromSourceView {
    pub config_map: Option<Seq<char>>,
    pub secret: Option<Seq<char>>,
}

impl View for EnvFromSource {
    type V = EnvFromSourceView;

    open spec fn view(&self) -> EnvFromSourceView {
        EnvFromSourceView {
            config_map: match self.config_map {
                Some(s) => Some(s@),
                None => None,
            },
            secret: match self.secret {
                Some(s) => Some(s@),
                None => None,
            },
        }
    }
}

/// One container of a workload document: its name, its env entries in
/// document order, and its bulk-import references.
#[derive(Debug)]
pub struct ContainerSpec {
    pub name: String,
    pub env: Vec<EnvEntry>,
    pub env_from: Vec<EnvFromSource>,
}

/// Mathematical model of a [`ContainerSpec`].
pub struct ContainerSpecView {
    pub name: Seq<char>,
    pub env: Seq<EnvEntryView>,
    pub env_from: Seq<EnvFromSourceView>,
}

/// The models of a sequence of env entries.
pub open spec fn entries_view(s: Seq<EnvEntry>) -> Seq<EnvEntryView> {
    s.map_values(|e: EnvEntry| e@)
}

/// The models of a sequence of bulk-import references.
pub open spec fn sources_view(s: Seq<EnvFromSource>) -> Seq<EnvFromSourceView> {
    s.map_values(|e: EnvFromSource| e@)
}

impl View for ContainerSpec {
    type V = ContainerSpecView;

    open spec fn view(&self) -> ContainerSpecView {
        ContainerSpecView {
            name: self.name@,
            env: entries_view(self.env@),
            env_from: sources_view(self.env_from@),
        }
    }
}

/// One document of a manifest stream, reduced to what extraction reads: its
/// kind discriminator, its metadata name, and the containers of its pod
/// template. `None` stands for a missing name or a missing or malformed
/// template, which makes extraction skip the document.
#[derive(Debug)]
pub struct ManifestDoc {
    pub kind: String,
    pub name: Option<String>,
    pub containers: Option<Vec<ContainerSpec>>,
}

/// Mathematical model of a [`ManifestDoc`].
pub struct ManifestDocView {
    pub kind: Seq<char>,
    pub name: Option<Seq<char>>,
    pub containers: Option<Seq<ContainerSpecView>>,
}

/// The models of a sequence of container specifications.
pub open spec fn container_specs_view(s: Seq<ContainerSpec>) -> Seq<ContainerSpecView> {
    s.map_values(|c: ContainerSpec| c@)
}

impl View for ManifestDoc {
    type V = ManifestDocView;

    open spec fn view(&self) -> ManifestDocView {
        ManifestDocView {
            kind: self.kind@,
            name: match self.name {
                Some(s) => Some(s@),
                None => None,
            },
            containers: match self.containers {
                Some(cs) => Some(container_specs_view(cs@)),
                None => None,
            },
        }
    }
}

/// One extracted container: its name, its flattened variable mapping in
/// insertion order, and the rendered bulk-import references.
#[derive(Debug, Clone)]
pub struct ContainerInfo {
    pub name: String,
    pub env_vars: Vec<(String, String)>,
    pub env_from_refs: Vec<String>,
}

/// Mathematical model of a [`ContainerInfo`].
pub struct ContainerInfoView {
    pub name: Seq<char>,
    pub env_vars: Seq<(Seq<char>, Seq<char>)>,
    pub env_from_refs: Seq<Seq<char>>,
}

/// The models of a sequence of (name, value) pairs.
pub open spec fn pairs_view(s: Seq<(String, String)>) -> Seq<(Seq<char>, Seq<char>)> {
    s.map_values(|p: (String, String)| (p.0@, p.1@))
}

impl View for ContainerInfo {
    type V = ContainerInfoView;

    open spec fn view(&self) -> ContainerInfoView {
        ContainerInfoView {
            name: self.name@,
            env_vars: pairs_view(self.env_vars@),
            env_from_refs: strings_view(self.env_from_refs@),
        }
    }
}

/// One extracted workload: its kind, its name, and its containers.
#[derive(Debug, Clone)]
pub struct K8sResource {
    pub kind: String,
    pub name: String,
    pub containers: Vec<ContainerInfo>,
}

/// Mathematical model of a [`K8sResource`].
pub struct K8sResourceView {
    pub kind: Seq<char>,
    pub name: Seq<char>,
    pub containers: Seq<ContainerInfoView>,
}

/// The models of a sequence of extracted containers.
pub open spec fn container_infos_view(s: Seq<ContainerInfo>) -> Seq<ContainerInfoView> {
    s.map_values(|c: ContainerInfo| c@)
}

impl View for K8sResource {
    type V = K8sResourceView;

    open spec fn view(&self) -> K8sResourceView {
        K8sResourceView {
            kind: self.kind@,
            name: self.name@,
            containers: container_infos_view(self.containers@),
        }
    }
}

/// The models of a sequence of extracted workloads.
pub open spec fn resources_view(s: Seq<K8sResource>) -> Seq<K8sResourceView> {
    s.map_values(|r: K8sResource| r@)
}

/// The models of a sequence of manifest documents.
pub open spec fn docs_view(s: Seq<ManifestDoc>) -> Seq<ManifestDocView> {
    s.map_values(|d: ManifestDoc| d@)
}

// ---------------------------------------------------------------------------
// The flattened mapping: an insertion-ordered association sequence.
// ---------------------------------------------------------------------------

/// The value bound to `name` in the association sequence `m`, if any.
pub open spec fn assoc_get(m: Seq<(Seq<char>, Seq<char>)>, name: Seq<char>) -> Option<Seq<char>>
    decreases m.len(),
{
    if m.len() == 0 {
        None
    } else if m[0].0 == name {
        Some(m[0].1)
    } else {
        assoc_get(m.drop_first(), name)
    }
}

/// `m` with `name` bound to `value`: the first binding of `name` is replaced
/// in place, or a new binding is appended.
pub open spec fn upsert(
    m: Seq<(Seq<char>, Seq<char>)>,
    name: Seq<char>,
    value: Seq<char>,
) -> Seq<(Seq<char>, Seq<char>)>
    decreases m.len(),
{
    if m.len() == 0 {
        seq![(name, value)]
    } else if m[0].0 == name {
        seq![(name, value)] + m.drop_first()
    } else {
        seq![m[0]] + upsert(m.drop_first(), name, value)
    }
}

/// What an entry's value contributes to the flattened mapping: the literal
/// itself, or a provenance descriptor naming the indirect source.
pub open spec fn spec_rendered(v: EnvValueView) -> Seq<char> {
    match v {
        EnvValueView::Literal(s) => s,
        EnvValueView::SecretKeyRef { name, key } => "Secret["@ + name + ":"@ + key + "]"@,
        EnvValueView::ConfigMapKeyRef { name, key } => "ConfigMap["@ + name + ":"@ + key + "]"@,
        EnvValueView::FieldRef { field_path } => "Field["@ + field_path + "]"@,
        EnvValueView::ResourceFieldRef { resource } => "Resource["@ + resource + "]"@,
        EnvValueView::UnknownSource => "<unknown source>"@,
    }
}

/// The flattened mapping of a container's env entries, in document order;
/// a later entry with the same name overwrites an earlier one's value.
pub open spec fn spec_flatten_entries(entries: Seq<EnvEntryView>) -> Seq<(Seq<char>, Seq<char>)>
    decreases entries.len(),
{
    if entries.len() == 0 {
        Seq::<(Seq<char>, Seq<char>)>::empty()
    } else {
        let prev = spec_flatten_entries(entries.drop_last());
        match entries.last().value {
            Some(v) => upsert(prev, entries.last().name, spec_rendered(v)),
            None => prev,
        }
    }
}

/// The rendered bulk-import references, in document order; a reference that
/// names both a ConfigMap and a Secret yields two descriptors.
pub open spec fn spec_env_from_refs(sources: Seq<EnvFromSourceView>) -> Seq<Seq<char>>
    decreases sources.len(),
{
    if sources.len() == 0 {
        Seq::<Seq<char>>::empty()
    } else {
        let prev = spec_env_from_refs(sources.drop_last());
        let s = sources.last();
        let with_cm = match s.config_map {
            Some(n) => prev.push("ConfigMap: "@ + n),
            None => prev,
        };
        match s.secret {
            Some(n) => with_cm.push("Secret: "@ + n),
            None => with_cm,
        }
    }
}

/// What extraction makes of one container.
pub open spec fn spec_container_info(c: ContainerSpecView) -> ContainerInfoView {
    ContainerInfoView {
        name: c.name,
        env_vars: spec_flatten_entries(c.env),
        env_from_refs: spec_env_from_refs(c.env_from),
    }
}

/// What extraction makes of each container of a list.
pub open spec fn spec_container_infos(s: Seq<ContainerSpecView>) -> Seq<ContainerInfoView> {
    s.map_values(|c: ContainerSpecView| spec_container_info(c))
}

/// The workload kinds extraction recognizes.
pub open spec fn spec_recognized_kind(kind: Seq<char>) -> bool {
    kind == "Deployment"@ || kind == "StatefulSet"@ || kind == "DaemonSet"@
}

/// What extraction makes of one document: a workload for a recognized kind
/// with a name and a well-formed pod template, and nothing otherwise.
pub open spec fn spec_extract_doc(d: ManifestDocView) -> Option<K8sResourceView> {
    if spec_recognized_kind(d.kind) {
        match (d.name, d.containers) {
            (Some(n), Some(cs)) => Some(
                K8sResourceView { kind: d.kind, name: n, containers: spec_container_infos(cs) },
            ),
            _ => None,
        }
    } else {
        None
    }
}

/// What extraction makes of a document stream: one workload per recognized,
/// well-formed document, in stream order.
pub open spec fn spec_extract(docs: Seq<ManifestDocView>) -> Seq<K8sResourceView>
    decreases docs.len(),
{
    if docs.len() == 0 {
        Seq::<K8sResourceView>::empty()
    } else {
        let prev = spec_extract(docs.drop_last());
        match spec_extract_doc(docs.last()) {
            Some(r) => prev.push(r),
            None => prev,
        }
    }
}

// ---------------------------------------------------------------------------
// Association-sequence lemmas.
// ---------------------------------------------------------------------------

/// Looking a name up after an upsert gives the new value for that name and
/// leaves every other name's binding unchanged.
pub proof fn lemma_assoc_get_upsert(
    m: Seq<(Seq<char>, Seq<char>)>,
    name: Seq<char>,
    value: Seq<char>,
    probe: Seq<char>,
)
    ensures
        assoc_get(upsert(m, name, value), probe) == if probe == name {
            Some(value)
        } else {
            assoc_get(m, probe)
        },
    decreases m.len(),
{
    if m.len() == 0 {
        let u = upsert(m, name, value);
        assert(u == seq![(name, value)]);
        assert(u.len() == 1 && u[0] == (name, value));
        if probe == name {
            assert(assoc_get(u, probe) == Some(value));
        } else {
            assert(u.drop_first().len() == 0);
            assert(assoc_get(u, probe) == assoc_get(u.drop_first(), probe));
            assert(assoc_get(u, probe) is None);
        }
    } else if m[0].0 == name {
        let u = upsert(m, name, value);
        assert(u == seq![(name, value)] + m.drop_first());
        assert(u.len() >= 1 && u[0] == (name, value));
        assert(u.drop_first() =~= m.drop_first());
        if probe == name {
            assert(assoc_get(u, probe) == Some(value));
        } else {
            assert(assoc_get(u, probe) == assoc_get(m.drop_first(), probe));
            assert(assoc_get(m, probe) == assoc_get(m.drop_first(), probe));
        }
    } else {
        let u = upsert(m, name, value);
        assert(u == seq![m[0]] + upsert(m.drop_first(), name, value));
        assert(u.len() >= 1 && u[0] == m[0]);
        assert(u.drop_first() =~= upsert(m.drop_first(), name, value));
        lemma_assoc_get_upsert(m.drop_first(), name, value, probe);
        if probe == m[0].0 {
            assert(assoc_get(u, probe) == Some(m[0].1));
            assert(assoc_get(m, probe) == Some(m[0].1));
        } else {
            assert(assoc_get(u, probe) == assoc_get(u.drop_first(), probe));
            assert(assoc_get(m, probe) == assoc_get(m.drop_first(), probe));
        }
    }
}

proof fn lemma_upsert_at(
    m: Seq<(Seq<char>, Seq<char>)>,
    name: Seq<char>,
    value: Seq<char>,
    i: int,
)
    requires
        0 <= i < m.len(),
        forall|k: int| 0 <= k < i ==> m[k].0 != name,
        m[i].0 == name,
    ensures
        upsert(m, name, value) == m.update(i, (name, value)),
    decreases i,
{
    if i == 0 {
        assert(upsert(m, name, value) =~= m.update(0, (name, value)));
    } else {
        assert(m[0].0 != name);
        assert(forall|k: int| 0 <= k < i - 1 ==> m.drop_first()[k].0 != name);
        lemma_upsert_at(m.drop_first(), name, value, i - 1);
        assert(upsert(m, name, value) == seq![m[0]] + upsert(m.drop_first(), name, value));
        assert(seq![m[0]] + m.drop_first().update(i - 1, (name, value)) =~= m.update(
            i,
            (name, value),
        ));
    }
}

proof fn lemma_upsert_absent(m: Seq<(Seq<char>, Seq<char>)>, name: Seq<char>, value: Seq<char>)
    requires
        forall|k: int| 0 <= k < m.len() ==> m[k].0 != name,
    ensures
        upsert(m, name, value) == m.push((name, value)),
    decreases m.len(),
{
    if m.len() == 0 {
        assert(upsert(m, name, value) =~= m.push((name, value)));
    } else {
        assert(m[0].0 != name);
        assert(forall|k: int| 0 <= k < m.drop_first().len() ==> m.drop_first()[k].0 != name);
        lemma_upsert_absent(m.drop_first(), name, value);
        assert(seq![m[0]] + m.drop_first().push((name, value)) =~= m.push((name, value)));
    }
}

// ---------------------------------------------------------------------------
// Executable extraction.
// ---------------------------------------------------------------------------

/// Replaces the first binding of `name` in place, or appends a new binding.
pub(crate) fn upsert_pair(m: &mut Vec<(String, String)>, name: String, value: String)
    ensures
        pairs_view(final(m)@) == upsert(pairs_view(old(m)@), name@, value@),
{
    let n = m.len();
    let mut i: usize = 0;
    while i < n
        invariant
            n == m@.len(),
            i <= n,
            m@ == old(m)@,
            forall|k: int| 0 <= k < i ==> pairs_view(m@)[k].0 != name@,
        decreases n - i,
    {
        if m[i].0 == name {
            proof {
                assert(pairs_view(m@)[i as int].0 == name@);
                lemma_upsert_at(pairs_view(m@), name@, value@, i as int);
            }
            m[i] = (name, value);
            proof {
                assert(pairs_view(m@) =~= pairs_view(old(m)@).update(
                    i as int,
                    (name@, value@),
                ));
            }
            return ;
        }
        i += 1;
    }
    proof {
        lemma_upsert_absent(pairs_view(m@), name@, value@);
    }
    m.push((name, value));
    proof {
        assert(pairs_view(m@) =~= pairs_view(old(m)@).push((name@, value@)));
    }
}

/// Folds the bindings of `vars` into `acc`, in order, by upsert.
pub open spec fn spec_merge(
    acc: Seq<(Seq<char>, Seq<char>)>,
    vars: Seq<(Seq<char>, Seq<char>)>,
) -> Seq<(Seq<char>, Seq<char>)>
    decreases vars.len(),
{
    if vars.len() == 0 {
        acc
    } else {
        upsert(spec_merge(acc, vars.drop_last()), vars.last().0, vars.last().1)
    }
}

/// Merges a container's bindings into the accumulated mapping; on a name
/// collision the newly merged value wins.
pub(crate) fn merge_pairs(acc: &mut Vec<(String, String)>, vars: &Vec<(String, String)>)
    ensures
        pairs_view(final(acc)@) == spec_merge(pairs_view(old(acc)@), pairs_view(vars@)),
{
    let n = vars.len();
    let mut i: usize = 0;
    while i < n
        invariant
            n == vars@.len(),
            i <= n,
            pairs_view(acc@) == spec_merge(pairs_view(old(acc)@), pairs_view(vars@).take(i as int)),
        decreases n - i,
    {
        let name = vars[i].0.clone();
        let value = vars[i].1.clone();
        upsert_pair(acc, name, value);
        proof {
            let pv = pairs_view(vars@);
            assert(pv.take(i as int + 1).drop_last() =~= pv.take(i as int));
            assert(pv.take(i as int + 1).last() == pv[i as int]);
        }
        i += 1;
    }
    proof {
        assert(pairs_view(vars@).take(n as int) =~= pairs_view(vars@));
    }
}

/// The flattened mapping of all containers of a workload, merged in container
/// order; a later container's binding overwrites an earlier container's.
pub open spec fn spec_collect_env_vars(
    containers: Seq<ContainerInfoView>,
) -> Seq<(Seq<char>, Seq<char>)>
    decreases containers.len(),
{
    if containers.len() == 0 {
        Seq::<(Seq<char>, Seq<char>)>::empty()
    } else {
        spec_merge(spec_collect_env_vars(containers.drop_last()), containers.last().env_vars)
    }
}

/// The parser half of the pipeline: turns manifest documents into workloads.
pub struct K8sParser;

impl K8sParser {
    /// A parser. The type is stateless; the value only carries the methods.
    pub fn new() -> Self {
        K8sParser
    }

    /// The observed value or provenance descriptor an env entry's value
    /// contributes to the flattened mapping.
    pub fn describe_value_from(&self, value: &EnvValue) -> (r: String)
        ensures
            r@ == spec_rendered(value@),
    {
        match value {
            EnvValue::Literal(s) => s.clone(),
            EnvValue::SecretKeyRef { name, key } => {
                let r = String::from_str("Secret[").concat(name.as_str()).concat(":").concat(
                    key.as_str(),
                ).concat("]");
                proof {
                    assert(r@ =~= spec_rendered(value@));
                }
                r
            },
            EnvValue::ConfigMapKeyRef { name, key } => {
                let r = String::from_str("ConfigMap[").concat(name.as_str()).concat(":").concat(
                    key.as_str(),
                ).concat("]");
                proof {
                    assert(r@ =~= spec_rendered(value@));
                }
                r
            },
            EnvValue::FieldRef { field_path } => {
                let r = String::from_str("Field[").concat(field_path.as_str()).concat("]");
                proof {
                    assert(r@ =~= spec_rendered(value@));
                }
                r
            },
            EnvValue::ResourceFieldRef { resource } => {
                let r = String::from_str("Resource[").concat(resource.as_str()).concat("]");
                proof {
                    assert(r@ =~= spec_rendered(value@));
                }
                r
            },
            EnvValue::UnknownSource => String::from_str("<unknown source>"),
        }
    }

    /// Flattens a container's env entries in document order; a later entry
    /// with the same name overwrites an earlier one's value.
    pub fn extract_env_vars(&self, env: &Vec<EnvEntry>) -> (r: Vec<(String, String)>)
        ensures
            pairs_view(r@) == spec_flatten_entries(entries_view(env@)),
    {
        let mut m: Vec<(String, String)> = Vec::new();
        let n = env.len();
        let mut i: usize = 0;
        proof {
            assert(entries_view(env@).take(0) =~= Seq::<EnvEntryView>::empty());
        }
        while i < n
            invariant
                n == env@.len(),
                i <= n,
                pairs_view(m@) == spec_flatten_entries(entries_view(env@).take(i as int)),
            decreases n - i,
        {
            match &env[i].value {
                Some(v) => {
                    let rendered = self.describe_value_from(v);
                    let name = env[i].name.clone();
                    upsert_pair(&mut m, name, rendered);
                },
                None => {},
            }
            proof {
                let ev = entries_view(env@);
                assert(ev.take(i as int + 1).drop_last() =~= ev.take(i as int));
                assert(ev.take(i as int + 1).last() == ev[i as int]);
            }
            i += 1;
        }
        proof {
            assert(entries_view(env@).take(n as int) =~= entries_view(env@));
        }
        m
    }

    /// Renders a container's bulk-import references in document order.
    pub fn extract_env_from(&self, env_from: &Vec<EnvFromSource>) -> (r: Vec<String>)
        ensures
            strings_view(r@) == spec_env_from_refs(sources_view(env_from@)),
    {
        let mut refs: Vec<String> = Vec::new();
        let n = env_from.len();
        let mut i: usize = 0;
        proof {
            assert(sources_view(env_from@).take(0) =~= Seq::<EnvFromSourceView>::empty());
        }
        while i < n
            invariant
                n == env_from@.len(),
                i <= n,
                strings_view(refs@) == spec_env_from_refs(sources_view(env_from@).take(i as int)),
            decreases n - i,
        {
            match &env_from[i].config_map {
                Some(name) => {
                    let s = String::from_str("ConfigMap: ").concat(name.as_str());
                    refs.push(s);
                },
                None => {},
            }
            match &env_from[i].secret {
                Some(name) => {
                    let s = String::from_str("Secret: ").concat(name.as_str());
                    refs.push(s);
                },
                None => {},
            }
            proof {
                let sv = sources_view(env_from@);
                assert(sv.take(i as int + 1).drop_last() =~= sv.take(i as int));
                assert(sv.take(i as int + 1).last() == sv[i as int]);
                assert(strings_view(refs@) =~= spec_env_from_refs(sv.take(i as int + 1)));
            }
            i += 1;
        }
        proof {
            assert(sources_view(env_from@).take(n as int) =~= sources_view(env_from@));
        }
        refs
    }

    /// Extracts every container of a workload document.
    pub fn extract_containers(&self, containers: &Vec<ContainerSpec>) -> (r: Vec<ContainerInfo>)
        ensures
            container_infos_view(r@) == spec_container_infos(container_specs_view(containers@)),
    {
        let mut infos: Vec<ContainerInfo> = Vec::new();
        let n = containers.len();
        let mut i: usize = 0;
        while i < n
            invariant
                n == containers@.len(),
                i <= n,
                container_infos_view(infos@) =~= spec_container_infos(
                    container_specs_view(containers@),
                ).take(i as int),
            decreases n - i,
        {
            let c = &containers[i];
            let env_vars = self.extract_env_vars(&c.env);
            let env_from_refs = self.extract_env_from(&c.env_from);
            let info = ContainerInfo { name: c.name.clone(), env_vars, env_from_refs };
            proof {
                assert(info@ == spec_container_info(containers@[i as int]@));
            }
            let ghost old_infos = infos@;
            infos.push(info);
            proof {
                let full = spec_container_infos(container_specs_view(containers@));
                assert(container_infos_view(old_infos) =~= full.take(i as int));
                assert(container_infos_view(old_infos).len() == old_infos.len());
                assert(old_infos.len() == i as int);
                assert(infos@ == old_infos.push(info));
                assert forall|k: int| 0 <= k < i as int + 1 implies container_infos_view(infos@)[k]
                    == full.take(i as int + 1)[k] by {
                    if k < i as int {
                        assert(container_infos_view(old_infos)[k] == full.take(i as int)[k]);
                        assert(infos@[k] == old_infos[k]);
                    } else {
                        assert(infos@[k] == info);
                    }
                }
                assert(container_infos_view(infos@) =~= full.take(i as int + 1));
            }
            i += 1;
        }
        proof {
            let full = spec_container_infos(container_specs_view(containers@));
            assert(full.take(n as int) =~= full);
        }
        infos
    }

    /// Extracts one workload from a document, or nothing when the document is
    /// of an unrecognized kind, lacks a name, or lacks a pod template.
    pub fn extract_resource(&self, doc: &ManifestDoc) -> (r: Option<K8sResource>)
        ensures
            match r {
                Some(res) => spec_extract_doc(doc@) == Some(res@),
                None => spec_extract_doc(doc@) is None,
            },
    {
        let recognized = doc.kind == "Deployment".to_owned() || doc.kind == "StatefulSet".to_owned()
            || doc.kind == "DaemonSet".to_owned();
        if !recognized {
            return None;
        }
        match (&doc.name, &doc.containers) {
            (Some(name), Some(cs)) => {
                let containers = self.extract_containers(cs);
                let res = K8sResource {
                    kind: doc.kind.clone(),
                    name: name.clone(),
                    containers,
                };
                Some(res)
            },
            _ => None,
        }
    }

    /// Turns a stream of documents into the workloads it declares, in stream
    /// order; unrecognized or structurally incomplete documents are skipped.
    pub fn extract_resources(&self, docs: &Vec<ManifestDoc>) -> (r: Vec<K8sResource>)
        ensures
            resources_view(r@) == spec_extract(docs_view(docs@)),
    {
        let mut resources: Vec<K8sResource> = Vec::new();
        let n = docs.len();
        let mut i: usize = 0;
        proof {
            assert(docs_view(docs@).take(0) =~= Seq::<ManifestDocView>::empty());
        }
        while i < n
            invariant
                n == docs@.len(),
                i <= n,
                resources_view(resources@) == spec_extract(docs_view(docs@).take(i as int)),
            decreases n - i,
        {
            match self.extract_resource(&docs[i]) {
                Some(res) => {
                    resources.push(res);
                },
                None => {},
            }
            proof {
                let dv = docs_view(docs@);
                assert(dv.take(i as int + 1).drop_last() =~= dv.take(i as int));
                assert(dv.take(i as int + 1).last() == dv[i as int]);
                assert(resources_view(resources@) =~= spec_extract(dv.take(i as int + 1)));
            }
            i += 1;
        }
        proof {
            assert(docs_view(docs@).take(n as int) =~= docs_view(docs@));
        }
        resources
    }
}

// ---------------------------------------------------------------------------
// Last write wins.
// ---------------------------------------------------------------------------

/// The value the last entry that declares `name` (with a value) contributes,
/// if any entry does.
pub open spec fn spec_last_value(entries: Seq<EnvEntryView>, name: Seq<char>) -> Option<Seq<char>>
    decreases entries.len(),
{
    if entries.len() == 0 {
        None
    } else {
        let e = entries.last();
        match e.value {
            Some(v) => if e.name == name {
                Some(spec_rendered(v))
            } else {
                spec_last_value(entries.drop_last(), name)
            },
            None => spec_last_value(entries.drop_last(), name),
        }
    }
}

/// Later entries win: for each name, the flattened mapping holds the value of
/// the last entry that declares it.
pub proof fn lemma_flatten_last_wins(entries: Seq<EnvEntryView>, name: Seq<char>)
    ensures
        assoc_get(spec_flatten_entries(entries), name) == spec_last_value(entries, name),
    decreases entries.len(),
{
    if entries.len() == 0 {
    } else {
        lemma_flatten_last_wins(entries.drop_last(), name);
        let prev = spec_flatten_entries(entries.drop_last());
        let e = entries.last();
        match e.value {
            Some(v) => {
                lemma_assoc_get_upsert(prev, e.name, spec_rendered(v), name);
            },
            None => {},
        }
    }
}

} // verus!
