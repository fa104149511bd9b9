//! Debug configurations: the providers and adapter factories extensions
//! register per debug type, and the launch configuration of each workspace.
use vstd::prelude::*;
use crate::store::{Duplicate, Store, views, duplicate_all, lookup, store_insert, distinct_keys};
use crate::json::{JsonValue, JsonView};
use crate::text::{clone_opt, clone_strings, concat, opt_view, str_eq};
use crate::tasks::clone_pairs;

verus! {

/// One entry of a workspace's `launch.json`.
pub struct DebugConfiguration {
    pub debug_type: String,
    pub name: String,
    /// `launch` or `attach`.
    pub request: String,
    pub program: Option<String>,
    pub args: Option<Vec<String>>,
    pub cwd: Option<String>,
    pub env: Option<Vec<(String, String)>>,
    pub console: Option<String>,
    /// The entry's other properties, by name.
    pub additional_properties: Vec<(String, JsonValue)>,
}

/// Mathematical form of a [`DebugConfiguration`].
pub struct DebugConfigurationView {
    pub debug_type: Seq<char>,
    pub name: Seq<char>,
    pub request: Seq<char>,
    pub program: Option<Seq<char>>,
    pub args: Option<Seq<String>>,
    pub cwd: Option<Seq<char>>,
    pub env: Option<Seq<(String, String)>>,
    pub console: Option<Seq<char>>,
    pub additional_properties: Seq<(Seq<char>, JsonView)>,
}

impl View for DebugConfiguration {
    type V = DebugConfigurationView;

    open spec fn view(&self) -> DebugConfigurationView {
        DebugConfigurationView {
            debug_type: self.debug_type@,
            name: self.name@,
            request: self.request@,
            program: opt_view(self.program),
            args: match self.args {
                Some(a) => Some(a@),
                None => None,
            },
            cwd: opt_view(self.cwd),
            env: match self.env {
                Some(e) => Some(e@),
                None => None,
            },
            console: opt_view(self.console),
            additional_properties: self.additional_properties@.map_values(|p: (String, JsonValue)| (p.0@, p.1@)),
        }
    }
}

impl Duplicate for DebugConfiguration {
    fn duplicate(&self) -> (r: Self) {
        let mut props: Vec<(String, JsonValue)> = Vec::new();
        let mut i: usize = 0;
        while i < self.additional_properties.len()
            invariant
                i <= self.additional_properties@.len(),
                props@.len() == i,
                forall|j: int| 0 <= j < i ==> (#[trigger] props@[j]).0@ == self.additional_properties@[j].0@
                    && props@[j].1@ == self.additional_properties@[j].1@,
            decreases self.additional_properties@.len() - i,
        {
            props.push((self.additional_properties[i].0.clone(), self.additional_properties[i].1.duplicate()));
            i = i + 1;
        }
        assert(props@.map_values(|p: (String, JsonValue)| (p.0@, p.1@)) =~= self.additional_properties@.map_values(
            |p: (String, JsonValue)| (p.0@, p.1@),
        ));
        DebugConfiguration {
            debug_type: self.debug_type.clone(),
            name: self.name.clone(),
            request: self.request.clone(),
            program: clone_opt(&self.program),
            args: match &self.args {
                Some(a) => Some(clone_strings(a)),
                None => None,
            },
            cwd: clone_opt(&self.cwd),
            env: match &self.env {
                Some(e) => Some(clone_pairs(e)),
                None => None,
            },
            console: clone_opt(&self.console),
            additional_properties: props,
        }
    }
}

/// The configurations of a workspace's `launch.json`.
pub struct LaunchConfiguration {
    pub version: String,
    pub configurations: Vec<DebugConfiguration>,
}

/// Mathematical form of a [`LaunchConfiguration`].
pub struct LaunchConfigurationView {
    pub version: Seq<char>,
    pub configurations: Seq<DebugConfigurationView>,
}

impl View for LaunchConfiguration {
    type V = LaunchConfigurationView;

    open spec fn view(&self) -> LaunchConfigurationView {
        LaunchConfigurationView { version: self.version@, configurations: views(self.configurations@) }
    }
}

impl Duplicate for LaunchConfiguration {
    fn duplicate(&self) -> (r: Self) {
        let configurations = duplicate_all(&self.configurations);
        assert(views(configurations@) =~= views(self.configurations@));
        LaunchConfiguration { version: self.version.clone(), configurations }
    }
}

/// How the editor starts or reaches a debug adapter.
pub enum DebugAdapterDescriptor {
    Executable { command: String, args: Vec<String>, options: Option<DebugAdapterExecutableOptions> },
    Server { port: u16, host: Option<String> },
    NamedPipe { path: String },
}

/// Where and with what environment an adapter executable runs.
pub struct DebugAdapterExecutableOptions {
    pub cwd: Option<String>,
    pub env: Option<Vec<(String, String)>>,
}

/// What configuration providers and adapter factories have in common: an
/// id, the extension that registered it, and the debug type it serves.
pub struct DebugContributionView {
    pub id: Seq<char>,
    pub owner: Seq<char>,
    pub debug_type: Seq<char>,
}

/// An extension's provider of debug configurations for a debug type.
pub struct DebugConfigurationProvider {
    pub id: String,
    pub owner: String,
    pub debug_type: String,
}

/// An extension's factory of debug adapter descriptors for a debug type.
pub struct DebugAdapterDescriptorFactory {
    pub id: String,
    pub owner: String,
    pub debug_type: String,
}

impl View for DebugConfigurationProvider {
    type V = DebugContributionView;

    open spec fn view(&self) -> DebugContributionView {
        DebugContributionView { id: self.id@, owner: self.owner@, debug_type: self.debug_type@ }
    }
}

impl View for DebugAdapterDescriptorFactory {
    type V = DebugContributionView;

    open spec fn view(&self) -> DebugContributionView {
        DebugContributionView { id: self.id@, owner: self.owner@, debug_type: self.debug_type@ }
    }
}

/// Registrations kept in a list and looked up by id, owner and debug type.
pub trait DebugContribution: Duplicate + View<V = DebugContributionView> {
    fn fields(&self) -> (r: (&str, &str, &str))
        ensures
            r.0@ == self@.id,
            r.1@ == self@.owner,
            r.2@ == self@.debug_type;
}

impl Duplicate for DebugConfigurationProvider {
    fn duplicate(&self) -> (r: Self) {
        DebugConfigurationProvider { id: self.id.clone(), owner: self.owner.clone(), debug_type: self.debug_type.clone() }
    }
}

impl Duplicate for DebugAdapterDescriptorFactory {
    fn duplicate(&self) -> (r: Self) {
        DebugAdapterDescriptorFactory { id: self.id.clone(), owner: self.owner.clone(), debug_type: self.debug_type.clone() }
    }
}

impl DebugContribution for DebugConfigurationProvider {
    fn fields(&self) -> (r: (&str, &str, &str)) {
        (self.id.as_str(), self.owner.as_str(), self.debug_type.as_str())
    }
}

impl DebugContribution for DebugAdapterDescriptorFactory {
    fn fields(&self) -> (r: (&str, &str, &str)) {
        (self.id.as_str(), self.owner.as_str(), self.debug_type.as_str())
    }
}

/// Which field a selection looks at.
pub enum Field {
    Id,
    Owner,
    DebugType,
}

/// The field `f` of `c`.
pub open spec fn field_of(c: DebugContributionView, f: Field) -> Seq<char> {
    match f {
        Field::Id => c.id,
        Field::Owner => c.owner,
        Field::DebugType => c.debug_type,
    }
}

/// The contributions whose field `f` is (`keep`) or is not (`!keep`) `value`.
pub open spec fn select(s: Seq<DebugContributionView>, f: Field, value: Seq<char>, keep: bool) -> Seq<
    DebugContributionView,
> {
    s.filter(|c: DebugContributionView| (field_of(c, f) == value) == keep)
}

/// Copies of the contributions whose field `f` is (`keep`) or is not (`!keep`) `value`.
fn select_exec<T: DebugContribution>(v: &Vec<T>, f: Field, value: &str, keep: bool) -> (r: Vec<T>)
    ensures
        views(r@) == select(views(v@), f, value@, keep),
{
    let ghost s = views(v@);
    let ghost pred = |c: DebugContributionView| (field_of(c, f) == value@) == keep;
    let mut out: Vec<T> = Vec::new();
    let mut i: usize = 0;
    assert(s.take(0).filter(pred) =~= Seq::<DebugContributionView>::empty()) by {
        reveal(Seq::filter);
    }
    while i < v.len()
        invariant
            i <= v@.len(),
            s == views(v@),
            pred == (|c: DebugContributionView| (field_of(c, f) == value@) == keep),
            views(out@) == s.take(i as int).filter(pred),
        decreases v@.len() - i,
    {
        proof {
            assert(s.take(i + 1) =~= s.take(i as int).push(s[i as int]));
            s.take(i as int).lemma_filter_push(s[i as int], pred);
        }
        let (id, owner, debug_type) = v[i].fields();
        let field = match f {
            Field::Id => id,
            Field::Owner => owner,
            Field::DebugType => debug_type,
        };
        if str_eq(field, value) == keep {
            let ghost ov = views(out@);
            let c = v[i].duplicate();
            out.push(c);
            assert(views(out@) =~= ov.push(c@));
        }
        i = i + 1;
    }
    assert(s.take(v@.len() as int) =~= s);
    out
}

/// Removes the contributions with `id`; `Err` with `missing` followed by the
/// id, and nothing changed, when there is none.
fn remove_by_id<T: DebugContribution>(v: &mut Vec<T>, id: &str, missing: &str) -> (r: Result<(), String>)
    ensures
        select(views(old(v)@), Field::Id, id@, false).len() == old(v)@.len() ==> (r matches Err(e)
            && e@ == missing@ + id@ && final(v)@ == old(v)@),
        select(views(old(v)@), Field::Id, id@, false).len() != old(v)@.len() ==> (r is Ok
            && views(final(v)@) == select(views(old(v)@), Field::Id, id@, false)),
{
    let kept = select_exec(v, Field::Id, id, false);
    if kept.len() == v.len() {
        return Err(concat(missing, id));
    }
    *v = kept;
    Ok(())
}

/// Providers and adapter factories by debug type, and launch configurations
/// by workspace.
pub struct DebugConfigurationRegistry {
    configuration_providers: Vec<DebugConfigurationProvider>,
    descriptor_factories: Vec<DebugAdapterDescriptorFactory>,
    launch_configurations: Store<LaunchConfiguration>,
}

impl DebugConfigurationRegistry {
    pub closed spec fn providers(&self) -> Seq<DebugContributionView> {
        views(self.configuration_providers@)
    }

    pub closed spec fn factories(&self) -> Seq<DebugContributionView> {
        views(self.descriptor_factories@)
    }

    /// Each workspace with its launch configuration.
    pub closed spec fn launches(&self) -> Seq<(Seq<char>, LaunchConfigurationView)> {
        self.launch_configurations.entries()
    }

    pub open spec fn wf(&self) -> bool {
        distinct_keys(self.launches())
    }

    pub fn new() -> (r: Self)
        ensures
            r.wf(),
            r.providers() == Seq::<DebugContributionView>::empty(),
            r.factories() == Seq::<DebugContributionView>::empty(),
            r.launches() == Seq::<(Seq<char>, LaunchConfigurationView)>::empty(),
    {
        let r = DebugConfigurationRegistry {
            configuration_providers: Vec::new(),
            descriptor_factories: Vec::new(),
            launch_configurations: Store::new(),
        };
        assert(r.providers() =~= Seq::<DebugContributionView>::empty());
        assert(r.factories() =~= Seq::<DebugContributionView>::empty());
        r
    }

    /// Adds a configuration provider and gives back its id.
    pub fn register_debug_configuration_provider(&mut self, provider: DebugConfigurationProvider) -> (r: Result<String, String>)
        ensures
            final(self).providers() == old(self).providers().push(provider@),
            final(self).factories() == old(self).factories(),
            final(self).launches() == old(self).launches(),
            r matches Ok(id) && id@ == provider@.id,
    {
        let id = provider.id.clone();
        let ghost pv = provider@;
        self.configuration_providers.push(provider);
        assert(self.providers() =~= old(self).providers().push(pv));
        Ok(id)
    }

    /// Removes the configuration providers with `provider_id`; refused when there is none.
    pub fn unregister_debug_configuration_provider(&mut self, provider_id: &str) -> (r: Result<(), String>)
        ensures
            final(self).factories() == old(self).factories(),
            final(self).launches() == old(self).launches(),
            select(old(self).providers(), Field::Id, provider_id@, false).len() == old(self).providers().len() ==> (r matches Err(e)
                && e@ == "Configuration provider not found: "@ + provider_id@
                && final(self).providers() == old(self).providers()),
            select(old(self).providers(), Field::Id, provider_id@, false).len() != old(self).providers().len() ==> (r is Ok
                && final(self).providers() == select(old(self).providers(), Field::Id, provider_id@, false)),
    {
        remove_by_id(&mut self.configuration_providers, provider_id, "Configuration provider not found: ")
    }

    /// The configuration providers for `debug_type`, in registration order.
    pub fn get_debug_configuration_providers(&self, debug_type: &str) -> (r: Vec<DebugConfigurationProvider>)
        ensures
            views(r@) == select(self.providers(), Field::DebugType, debug_type@, true),
    {
        select_exec(&self.configuration_providers, Field::DebugType, debug_type, true)
    }

    /// Adds an adapter descriptor factory and gives back its id.
    pub fn register_debug_adapter_descriptor_factory(&mut self, factory: DebugAdapterDescriptorFactory) -> (r: Result<String, String>)
        ensures
            final(self).factories() == old(self).factories().push(factory@),
            final(self).providers() == old(self).providers(),
            final(self).launches() == old(self).launches(),
            r matches Ok(id) && id@ == factory@.id,
    {
        let id = factory.id.clone();
        let ghost fv = factory@;
        self.descriptor_factories.push(factory);
        assert(self.factories() =~= old(self).factories().push(fv));
        Ok(id)
    }

    /// Removes the adapter factories with `factory_id`; refused when there is none.
    pub fn unregister_debug_adapter_descriptor_factory(&mut self, factory_id: &str) -> (r: Result<(), String>)
        ensures
            final(self).providers() == old(self).providers(),
            final(self).launches() == old(self).launches(),
            select(old(self).factories(), Field::Id, factory_id@, false).len() == old(self).factories().len() ==> (r matches Err(e)
                && e@ == "Adapter descriptor factory not found: "@ + factory_id@
                && final(self).factories() == old(self).factories()),
            select(old(self).factories(), Field::Id, factory_id@, false).len() != old(self).factories().len() ==> (r is Ok
                && final(self).factories() == select(old(self).factories(), Field::Id, factory_id@, false)),
    {
        remove_by_id(&mut self.descriptor_factories, factory_id, "Adapter descriptor factory not found: ")
    }

    /// The adapter factories for `debug_type`, in registration order.
    pub fn get_debug_adapter_descriptor_factories(&self, debug_type: &str) -> (r: Vec<DebugAdapterDescriptorFactory>)
        ensures
            views(r@) == select(self.factories(), Field::DebugType, debug_type@, true),
    {
        select_exec(&self.descriptor_factories, Field::DebugType, debug_type, true)
    }

    /// Sets a workspace's launch configuration; always succeeds.
    pub fn set_launch_configuration(&mut self, workspace_uri: String, configuration: LaunchConfiguration) -> (r: Result<(), String>)
        requires
            old(self).wf(),
        ensures
            final(self).wf(),
            final(self).launches() == store_insert(old(self).launches(), workspace_uri@, configuration@),
            final(self).providers() == old(self).providers(),
            final(self).factories() == old(self).factories(),
            r is Ok,
    {
        self.launch_configurations.insert(workspace_uri, configuration);
        Ok(())
    }

    /// A workspace's launch configuration, or why there is none.
    pub fn get_launch_configuration(&self, workspace_uri: &str) -> (r: Result<LaunchConfiguration, String>)
        ensures
            match r {
                Ok(c) => lookup(self.launches(), workspace_uri@) == Some(c@),
                Err(e) => lookup(self.launches(), workspace_uri@) is None
                    && e@ == "No launch configuration for workspace: "@ + workspace_uri@,
            },
    {
        match self.launch_configurations.get(workspace_uri) {
            Some(c) => Ok(c),
            None => Err(concat("No launch configuration for workspace: ", workspace_uri)),
        }
    }

    /// Every workspace with its launch configuration.
    pub fn get_all_launch_configurations(&self) -> (r: Vec<(String, LaunchConfiguration)>)
        ensures
            r@.map_values(|e: (String, LaunchConfiguration)| (e.0@, e.1@)) == self.launches(),
    {
        let n = self.launch_configurations.len();
        let mut out: Vec<(String, LaunchConfiguration)> = Vec::new();
        let mut i: usize = 0;
        while i < n
            invariant
                n == self.launches().len(),
                i <= n,
                out@.map_values(|e: (String, LaunchConfiguration)| (e.0@, e.1@)) == self.launches().take(i as int),
            decreases n - i,
        {
            let (k, c) = self.launch_configurations.entry_at(i);
            let ghost ov = out@.map_values(|e: (String, LaunchConfiguration)| (e.0@, e.1@));
            out.push((k.clone(), c.duplicate()));
            assert(out@.map_values(|e: (String, LaunchConfiguration)| (e.0@, e.1@)) =~= ov.push(self.launches()[i as int]));
            assert(self.launches().take(i + 1) =~= self.launches().take(i as int).push(self.launches()[i as int]));
            i = i + 1;
        }
        assert(self.launches().take(n as int) =~= self.launches());
        out
    }

    /// Drops the providers and adapter factories of `owner`.
    pub fn clear_debug_configuration_data(&mut self, owner: &str)
        ensures
            final(self).providers() == select(old(self).providers(), Field::Owner, owner@, false),
            final(self).factories() == select(old(self).factories(), Field::Owner, owner@, false),
            final(self).launches() == old(self).launches(),
    {
        self.configuration_providers = select_exec(&self.configuration_providers, Field::Owner, owner, false);
        self.descriptor_factories = select_exec(&self.descriptor_factories, Field::Owner, owner, false);
    }
}

} // verus!
