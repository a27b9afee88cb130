//! The declared schema: per-environment required/optional variable lists and
//! per-application additional required variables, with lookup queries.

use vstd::prelude::*;

verus! {

/// One declared environment variable: its name, a human description, an
/// optional default value, and an optional validation pattern.
#[derive(Debug)]
pub struct EnvVar {
    pub name: String,
    pub description: String,
    pub default: Option<String>,
    pub pattern: Option<String>,
}

/// Mathematical model of an [`EnvVar`].
pub struct EnvVarView {
    pub name: Seq<char>,
    pub description: Seq<char>,
    pub default: Option<Seq<char>>,
    pub pattern: Option<Seq<char>>,
}

impl View for EnvVar {
    type V = EnvVarView;

    open spec fn view(&self) -> EnvVarView {
        EnvVarView {
            name: self.name@,
            description: self.description@,
            default: match self.default {
                Some(s) => Some(s@),
                None => None,
            },
            pattern: match self.pattern {
                Some(s) => Some(s@),
                None => None,
            },
        }
    }
}

fn clone_opt_string(o: &Option<String>) -> (r: Option<String>)
    ensures
        r == *o,
{
    match o {
        Some(s) => Some(s.clone()),
        None => None,
    }
}

impl Clone for EnvVar {
    fn clone(&self) -> (res: Self)
        ensures
            res == *self,
    {
        EnvVar {
            name: self.name.clone(),
            description: self.description.clone(),
            default: clone_opt_string(&self.default),
            pattern: clone_opt_string(&self.pattern),
        }
    }
}

/// One environment's schema: its required and optional variables, in
/// declaration order.
#[derive(Debug)]
pub struct Environment {
    pub required_vars: Vec<EnvVar>,
    pub optional_vars: Vec<EnvVar>,
}

/// Mathematical model of an [`Environment`].
pub struct EnvironmentView {
    pub required_vars: Seq<EnvVarView>,
    pub optional_vars: Seq<EnvVarView>,
}

/// The models of a sequence of declared variables.
pub open spec fn vars_view(s: Seq<EnvVar>) -> Seq<EnvVarView> {
    s.map_values(|v: EnvVar| v@)
}

/// The models of a sequence of strings.
pub open spec fn strings_view(s: Seq<String>) -> Seq<Seq<char>> {
    s.map_values(|x: String| x@)
}

impl View for Environment {
    type V = EnvironmentView;

    open spec fn view(&self) -> EnvironmentView {
        EnvironmentView {
            required_vars: vars_view(self.required_vars@),
            optional_vars: vars_view(self.optional_vars@),
        }
    }
}

/// One application's schema additions: the environments they apply to and the
/// additional required variables.
#[derive(Debug)]
pub struct Application {
    pub environments: Vec<String>,
    pub additional_vars: Vec<EnvVar>,
}

/// Mathematical model of an [`Application`].
pub struct ApplicationView {
    pub environments: Seq<Seq<char>>,
    pub additional_vars: Seq<EnvVarView>,
}

impl View for Application {
    type V = ApplicationView;

    open spec fn view(&self) -> ApplicationView {
        ApplicationView {
            environments: strings_view(self.environments@),
            additional_vars: vars_view(self.additional_vars@),
        }
    }
}

/// The whole declared schema: environment schemas and application additions,
/// each keyed by name. The entries are kept in declaration order; a lookup
/// takes the first entry with a matching name.
#[derive(Debug)]
pub struct Config {
    pub environments: Vec<(String, Environment)>,
    pub applications: Vec<(String, Application)>,
}

/// Mathematical model of a [`Config`].
pub struct ConfigView {
    pub environments: Seq<(Seq<char>, EnvironmentView)>,
    pub applications: Seq<(Seq<char>, ApplicationView)>,
}

impl View for Config {
    type V = ConfigView;

    open spec fn view(&self) -> ConfigView {
        ConfigView {
            environments: self.environments@.map_values(
                |p: (String, Environment)| (p.0@, p.1@),
            ),
            applications: self.applications@.map_values(
                |p: (String, Application)| (p.0@, p.1@),
            ),
        }
    }
}

/// The first environment entry with the given name, if any.
pub open spec fn lookup_env(
    envs: Seq<(Seq<char>, EnvironmentView)>,
    name: Seq<char>,
) -> Option<EnvironmentView>
    decreases envs.len(),
{
    if envs.len() == 0 {
        None
    } else if envs[0].0 == name {
        Some(envs[0].1)
    } else {
        lookup_env(envs.drop_first(), name)
    }
}

/// The first application entry with the given name, if any.
pub open spec fn lookup_app(
    apps: Seq<(Seq<char>, ApplicationView)>,
    name: Seq<char>,
) -> Option<ApplicationView>
    decreases apps.len(),
{
    if apps.len() == 0 {
        None
    } else if apps[0].0 == name {
        Some(apps[0].1)
    } else {
        lookup_app(apps.drop_first(), name)
    }
}

/// The variables required of `app` in `env`: the environment's required list,
/// followed by the application's additional list when `env` is among the
/// application's applicable environments. An unknown environment has no
/// declared requirements at all — the result is then empty, whatever any
/// application lists — and an unknown application contributes nothing.
pub open spec fn spec_required_vars(
    c: ConfigView,
    app: Seq<char>,
    env: Seq<char>,
) -> Seq<EnvVarView> {
    match lookup_env(c.environments, env) {
        Some(e) => e.required_vars + (match lookup_app(c.applications, app) {
            Some(a) => if a.environments.contains(env) {
                a.additional_vars
            } else {
                Seq::<EnvVarView>::empty()
            },
            None => Seq::<EnvVarView>::empty(),
        }),
        None => Seq::<EnvVarView>::empty(),
    }
}

/// The optional variables of `env`, or nothing when the environment is
/// unknown.
pub open spec fn spec_optional_vars(c: ConfigView, env: Seq<char>) -> Seq<EnvVarView> {
    match lookup_env(c.environments, env) {
        Some(e) => e.optional_vars,
        None => Seq::<EnvVarView>::empty(),
    }
}

impl Config {
    fn find_env<'a>(&'a self, name: &String) -> (r: Option<&'a Environment>)
        ensures
            match r {
                Some(e) => lookup_env(self@.environments, name@) == Some(e@),
                None => lookup_env(self@.environments, name@) is None,
            },
    {
        let n = self.environments.len();
        let mut i: usize = 0;
        proof {
            assert(self@.environments.skip(0) =~= self@.environments);
        }
        while i < n
            invariant
                n == self.environments@.len(),
                i <= n,
                lookup_env(self@.environments, name@) == lookup_env(
                    self@.environments.skip(i as int),
                    name@,
                ),
            decreases n - i,
    {
            proof {
                assert(self@.environments.skip(i as int).drop_first() =~= self@.environments.skip(
                    i as int + 1,
                ));
                assert(self@.environments.skip(i as int)[0] == self@.environments[i as int]);
            }
            if self.environments[i].0 == *name {
                return Some(&self.environments[i].1);
            }
            i += 1;
        }
        proof {
            assert(self@.environments.skip(n as int) =~= Seq::<
                (Seq<char>, EnvironmentView),
            >::empty());
        }
        None
    }

    fn find_app<'a>(&'a self, name: &String) -> (r: Option<&'a Application>)
        ensures
            match r {
                Some(a) => lookup_app(self@.applications, name@) == Some(a@),
                None => lookup_app(self@.applications, name@) is None,
            },
    {
        let n = self.applications.len();
        let mut i: usize = 0;
        proof {
            assert(self@.applications.skip(0) =~= self@.applications);
        }
        while i < n
            invariant
                n == self.applications@.len(),
                i <= n,
                lookup_app(self@.applications, name@) == lookup_app(
                    self@.applications.skip(i as int),
                    name@,
                ),
            decreases n - i,
        {
            proof {
                assert(self@.applications.skip(i as int).drop_first() =~= self@.applications.skip(
                    i as int + 1,
                ));
                assert(self@.applications.skip(i as int)[0] == self@.applications[i as int]);
            }
            if self.applications[i].0 == *name {
                return Some(&self.applications[i].1);
            }
            i += 1;
        }
        proof {
            assert(self@.applications.skip(n as int) =~= Seq::<
                (Seq<char>, ApplicationView),
            >::empty());
        }
        None
    }

    /// The environment's required variables, with the application's additional
    /// ones appended when the application lists this environment. An unknown
    /// environment yields the empty list outright: it is treated as having no
    /// declared requirements, so no application addition applies either.
    pub fn get_required_vars(&self, app_name: &str, env_name: &str) -> (r: Vec<EnvVar>)
        ensures
            vars_view(r@) == spec_required_vars(self@, app_name@, env_name@),
    {
        let mut vars: Vec<EnvVar> = Vec::new();
        let env_key: String = env_name.to_owned();
        let app_key: String = app_name.to_owned();
        match self.find_env(&env_key) {
            Some(env) => {
                push_all_vars(&mut vars, &env.required_vars);
                match self.find_app(&app_key) {
                    Some(app) => {
                        if contains_string(&app.environments, &env_key) {
                            push_all_vars(&mut vars, &app.additional_vars);
                        }
                    },
                    None => {},
                }
            },
            None => {},
        }
        proof {
            assert(vars_view(vars@) =~= spec_required_vars(self@, app_name@, env_name@));
        }
        vars
    }

    /// The environment's optional variables. The application name does not
    /// take part in the lookup; it is accepted for symmetry with
    /// [`Config::get_required_vars`].
    pub fn get_optional_vars(&self, _app_name: &str, env_name: &str) -> (r: Vec<EnvVar>)
        ensures
            vars_view(r@) == spec_optional_vars(self@, env_name@),
    {
        let mut vars: Vec<EnvVar> = Vec::new();
        let env_key: String = env_name.to_owned();
        match self.find_env(&env_key) {
            Some(env) => {
                push_all_vars(&mut vars, &env.optional_vars);
            },
            None => {},
        }
        proof {
            assert(vars_view(vars@) =~= spec_optional_vars(self@, env_name@));
        }
        vars
    }
}

fn push_all_vars(dst: &mut Vec<EnvVar>, src: &Vec<EnvVar>)
    ensures
        final(dst)@ == old(dst)@ + src@,
{
    let n = src.len();
    let mut i: usize = 0;
    while i < n
        invariant
            n == src@.len(),
            i <= n,
            dst@ == old(dst)@ + src@.take(i as int),
        decreases n - i,
    {
        dst.push(src[i].clone());
        proof {
            assert(old(dst)@ + src@.take(i as int) + seq![src@[i as int]] =~= old(dst)@
                + src@.take(i as int + 1));
        }
        i += 1;
    }
    proof {
        assert(src@.take(n as int) =~= src@);
    }
}

pub(crate) fn contains_string(v: &Vec<String>, name: &String) -> (r: bool)
    ensures
        r == strings_view(v@).contains(name@),
{
    let n = v.len();
    let mut i: usize = 0;
    while i < n
        invariant
            n == v@.len(),
            i <= n,
            forall|k: int| 0 <= k < i ==> strings_view(v@)[k] != name@,
        decreases n - i,
    {
        if v[i] == *name {
            proof {
                assert(strings_view(v@)[i as int] == name@);
            }
            return true;
        }
        i += 1;
    }
    false
}

} // verus!
