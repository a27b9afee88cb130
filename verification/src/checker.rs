//! Compliance checking: classifying every declared variable of a workload
//! against the schema resolved for an environment/application pair, and
//! producing one structured outcome per workload.

use vstd::prelude::*;
use vstd::string::StringExecFns;
use crate::config::{Config, ConfigView, EnvVarView, spec_optional_vars, spec_required_vars, strings_view, vars_view};
use crate::k8s::{ContainerInfo, K8sResource, K8sResourceView, assoc_get, container_infos_view, pairs_view, spec_collect_env_vars};
use crate::pattern::{regex_compile, regex_search, spec_pattern_accepts};

verus! {

/// The outcome status of one workload's check. The lattice is ordered
/// Passed < Warning < Failed, and a check only ever escalates it.
#[derive(Debug, Clone, PartialEq, Eq, Structural)]
pub enum CheckStatus {
    Passed,
    Failed,
    Warning,
}

/// One pattern-validation failure: the variable and a message that names
/// either the malformed pattern or the mismatched value.
#[derive(Debug, Clone)]
pub struct ValidationError {
    pub var_name: String,
    pub message: String,
}

/// Mathematical model of a [`ValidationError`].
pub struct ValidationErrorView {
    pub var_name: Seq<char>,
    pub message: Seq<char>,
}

impl View for ValidationError {
    type V = ValidationErrorView;

    open spec fn view(&self) -> ValidationErrorView {
        ValidationErrorView { var_name: self.var_name@, message: self.message@ }
    }
}

/// The models of a sequence of validation errors.
pub open spec fn errors_view(s: Seq<ValidationError>) -> Seq<ValidationErrorView> {
    s.map_values(|e: ValidationError| e@)
}

/// One workload's check outcome.
#[derive(Debug, Clone)]
pub struct CheckResult {
    pub app_name: String,
    pub status: CheckStatus,
    pub missing_required: Vec<String>,
    pub missing_optional: Vec<String>,
    pub using_defaults: Vec<String>,
    pub extra_vars: Vec<String>,
    pub validation_errors: Vec<ValidationError>,
    pub passed_vars: Vec<(String, String)>,
}

/// Mathematical model of a [`CheckResult`].
pub struct CheckResultView {
    pub app_name: Seq<char>,
    pub status: CheckStatus,
    pub missing_required: Seq<Seq<char>>,
    pub missing_optional: Seq<Seq<char>>,
    pub using_defaults: Seq<Seq<char>>,
    pub extra_vars: Seq<Seq<char>>,
    pub validation_errors: Seq<ValidationErrorView>,
    pub passed_vars: Seq<(Seq<char>, Seq<char>)>,
}

impl View for CheckResult {
    type V = CheckResultView;

    open spec fn view(&self) -> CheckResultView {
        CheckResultView {
            app_name: self.app_name@,
            status: self.status,
            missing_required: strings_view(self.missing_required@),
            missing_optional: strings_view(self.missing_optional@),
            using_defaults: strings_view(self.using_defaults@),
            extra_vars: strings_view(self.extra_vars@),
            validation_errors: errors_view(self.validation_errors@),
            passed_vars: pairs_view(self.passed_vars@),
        }
    }
}

// ---------------------------------------------------------------------------
// The check, as a mathematical function of the schema, the workload, and the
// environment name.
// ---------------------------------------------------------------------------

/// The environment a check runs against: the supplied name, or the fixed
/// default `"development"`.
pub open spec fn spec_env_name(environment: Option<&str>) -> Seq<char> {
    match environment {
        Some(s) => s@,
        None => "development"@,
    }
}

/// The message recorded when a pattern does not compile; `err` is the
/// compile error's text.
pub open spec fn spec_invalid_pattern_message(err: Seq<char>) -> Seq<char> {
    "Invalid regex pattern: "@ + err
}

/// The message recorded when a value does not match its pattern.
pub open spec fn spec_mismatch_message(value: Seq<char>, pattern: Seq<char>) -> Seq<char> {
    "Value '"@ + value + "' does not match pattern '"@ + pattern + "'"@
}

/// The failure recorded for a variable whose pattern is malformed or whose
/// value does not match it.
pub open spec fn spec_validation_error(
    name: Seq<char>,
    value: Seq<char>,
    pattern: Seq<char>,
) -> ValidationErrorView {
    ValidationErrorView {
        var_name: name,
        message: match regex_compile(pattern) {
            Result::Err(m) => spec_invalid_pattern_message(m),
            Result::Ok(u) => spec_mismatch_message(value, pattern),
        },
    }
}

/// The names of the required variables that are absent from the flattened
/// mapping, in declaration order.
pub open spec fn spec_missing_required(
    req: Seq<EnvVarView>,
    flat: Seq<(Seq<char>, Seq<char>)>,
) -> Seq<Seq<char>>
    decreases req.len(),
{
    if req.len() == 0 {
        Seq::<Seq<char>>::empty()
    } else {
        let prev = spec_missing_required(req.drop_last(), flat);
        if assoc_get(flat, req.last().name) is None {
            prev.push(req.last().name)
        } else {
            prev
        }
    }
}

/// The failures of the required variables that are present but whose pattern
/// is malformed or unmatched, in declaration order.
pub open spec fn spec_validation_errors(
    req: Seq<EnvVarView>,
    flat: Seq<(Seq<char>, Seq<char>)>,
) -> Seq<ValidationErrorView>
    decreases req.len(),
{
    if req.len() == 0 {
        Seq::<ValidationErrorView>::empty()
    } else {
        let prev = spec_validation_errors(req.drop_last(), flat);
        let v = req.last();
        match assoc_get(flat, v.name) {
            Some(value) => match v.pattern {
                Some(p) => if !spec_pattern_accepts(p, value) {
                    prev.push(spec_validation_error(v.name, value, p))
                } else {
                    prev
                },
                None => prev,
            },
            None => prev,
        }
    }
}

/// The (name, value) pairs of the required variables that are present and
/// whose pattern, if any, accepts the value.
pub open spec fn spec_passed_required(
    req: Seq<EnvVarView>,
    flat: Seq<(Seq<char>, Seq<char>)>,
) -> Seq<(Seq<char>, Seq<char>)>
    decreases req.len(),
{
    if req.len() == 0 {
        Seq::<(Seq<char>, Seq<char>)>::empty()
    } else {
        let prev = spec_passed_required(req.drop_last(), flat);
        let v = req.last();
        match assoc_get(flat, v.name) {
            Some(value) => match v.pattern {
                Some(p) => if spec_pattern_accepts(p, value) {
                    prev.push((v.name, value))
                } else {
                    prev
                },
                None => prev.push((v.name, value)),
            },
            None => prev,
        }
    }
}

/// The names of the optional variables that are absent and fall back to a
/// declared default.
pub open spec fn spec_using_defaults(
    opt: Seq<EnvVarView>,
    flat: Seq<(Seq<char>, Seq<char>)>,
) -> Seq<Seq<char>>
    decreases opt.len(),
{
    if opt.len() == 0 {
        Seq::<Seq<char>>::empty()
    } else {
        let prev = spec_using_defaults(opt.drop_last(), flat);
        let v = opt.last();
        if assoc_get(flat, v.name) is None && v.default is Some {
            prev.push(v.name)
        } else {
            prev
        }
    }
}

/// The names of the optional variables that are absent and have no default.
pub open spec fn spec_missing_optional(
    opt: Seq<EnvVarView>,
    flat: Seq<(Seq<char>, Seq<char>)>,
) -> Seq<Seq<char>>
    decreases opt.len(),
{
    if opt.len() == 0 {
        Seq::<Seq<char>>::empty()
    } else {
        let prev = spec_missing_optional(opt.drop_last(), flat);
        let v = opt.last();
        if assoc_get(flat, v.name) is None && v.default is None {
            prev.push(v.name)
        } else {
            prev
        }
    }
}

/// The (name, value) pairs of the optional variables that are present.
pub open spec fn spec_passed_optional(
    opt: Seq<EnvVarView>,
    flat: Seq<(Seq<char>, Seq<char>)>,
) -> Seq<(Seq<char>, Seq<char>)>
    decreases opt.len(),
{
    if opt.len() == 0 {
        Seq::<(Seq<char>, Seq<char>)>::empty()
    } else {
        let prev = spec_passed_optional(opt.drop_last(), flat);
        let v = opt.last();
        match assoc_get(flat, v.name) {
            Some(value) => prev.push((v.name, value)),
            None => prev,
        }
    }
}

/// The names of a sequence of declared variables.
pub open spec fn names_of(s: Seq<EnvVarView>) -> Seq<Seq<char>> {
    s.map_values(|v: EnvVarView| v.name)
}

/// Every name the schema expects: the required names followed by the optional
/// ones.
pub open spec fn spec_expected_names(req: Seq<EnvVarView>, opt: Seq<EnvVarView>) -> Seq<Seq<char>> {
    names_of(req) + names_of(opt)
}

/// The declared names that no schema entry expects, in mapping order.
pub open spec fn spec_extra_vars(
    flat: Seq<(Seq<char>, Seq<char>)>,
    expected: Seq<Seq<char>>,
) -> Seq<Seq<char>>
    decreases flat.len(),
{
    if flat.len() == 0 {
        Seq::<Seq<char>>::empty()
    } else {
        let prev = spec_extra_vars(flat.drop_last(), expected);
        if !expected.contains(flat.last().0) {
            prev.push(flat.last().0)
        } else {
            prev
        }
    }
}

/// The outcome status implied by the recorded findings: Failed as soon as a
/// required variable is missing or a pattern failed, otherwise Warning when
/// an optional variable without a default is missing, otherwise Passed.
pub open spec fn spec_status(
    mr: Seq<Seq<char>>,
    ve: Seq<ValidationErrorView>,
    mo: Seq<Seq<char>>,
) -> CheckStatus {
    if mr.len() > 0 || ve.len() > 0 {
        CheckStatus::Failed
    } else if mo.len() > 0 {
        CheckStatus::Warning
    } else {
        CheckStatus::Passed
    }
}

/// The whole check of one workload, as a function of the schema, the
/// workload, and the environment name.
pub open spec fn spec_check_resource(
    c: ConfigView,
    resource: K8sResourceView,
    env: Seq<char>,
) -> CheckResultView {
    let flat = spec_collect_env_vars(resource.containers);
    let req = spec_required_vars(c, resource.name, env);
    let opt = spec_optional_vars(c, env);
    let mr = spec_missing_required(req, flat);
    let ve = spec_validation_errors(req, flat);
    let mo = spec_missing_optional(opt, flat);
    CheckResultView {
        app_name: resource.name,
        status: spec_status(mr, ve, mo),
        missing_required: mr,
        missing_optional: mo,
        using_defaults: spec_using_defaults(opt, flat),
        extra_vars: spec_extra_vars(flat, spec_expected_names(req, opt)),
        validation_errors: ve,
        passed_vars: spec_passed_required(req, flat) + spec_passed_optional(opt, flat),
    }
}

// ---------------------------------------------------------------------------
// The engine.
// ---------------------------------------------------------------------------

/// The compliance engine: the loaded schema plus the check itself.
pub struct EnvChecker {
    pub config: Config,
}

fn flat_get<'a>(m: &'a Vec<(String, String)>, name: &String) -> (r: Option<&'a String>)
    ensures
        match r {
            Some(v) => assoc_get(pairs_view(m@), name@) == Some(v@),
            None => assoc_get(pairs_view(m@), name@) is None,
        },
{
    let n = m.len();
    let mut i: usize = 0;
    proof {
        assert(pairs_view(m@).skip(0) =~= pairs_view(m@));
    }
    while i < n
        invariant
            n == m@.len(),
            i <= n,
            assoc_get(pairs_view(m@), name@) == assoc_get(pairs_view(m@).skip(i as int), name@),
        decreases n - i,
    {
        proof {
            assert(pairs_view(m@).skip(i as int).drop_first() =~= pairs_view(m@).skip(
                i as int + 1,
            ));
            assert(pairs_view(m@).skip(i as int)[0] == pairs_view(m@)[i as int]);
        }
        if m[i].0 == *name {
            return Some(&m[i].1);
        }
        i += 1;
    }
    proof {
        assert(pairs_view(m@).skip(n as int) =~= Seq::<(Seq<char>, Seq<char>)>::empty());
    }
    None
}

fn invalid_pattern_message(err: &String) -> (r: String)
    ensures
        r@ == spec_invalid_pattern_message(err@),
{
    String::from_str("Invalid regex pattern: ").concat(err.as_str())
}

fn mismatch_message(value: &str, pattern: &str) -> (r: String)
    ensures
        r@ == spec_mismatch_message(value@, pattern@),
{
    let r = String::from_str("Value '").concat(value).concat("' does not match pattern '").concat(
        pattern,
    ).concat("'");
    proof {
        assert(r@ =~= spec_mismatch_message(value@, pattern@));
    }
    r
}

impl EnvChecker {
    /// An engine over the given schema.
    pub fn new(config: Config) -> (r: Self)
        ensures
            r.config == config,
    {
        EnvChecker { config }
    }

    /// The flattened variable mapping of a whole workload: the containers'
    /// mappings merged in order, a later container overwriting an earlier one
    /// on a name collision.
    #[verifier::loop_isolation(false)]
    pub fn collect_all_env_vars(&self, containers: &Vec<ContainerInfo>) -> (r: Vec<
        (String, String),
    >)
        ensures
            pairs_view(r@) == spec_collect_env_vars(container_infos_view(containers@)),
    {
        let mut all: Vec<(String, String)> = Vec::new();
        let n = containers.len();
        let mut i: usize = 0;
        proof {
            assert(container_infos_view(containers@).take(0) =~= Seq::<
                crate::k8s::ContainerInfoView,
            >::empty());
        }
        while i < n
            invariant
                i <= n,
                pairs_view(all@) == spec_collect_env_vars(
                    container_infos_view(containers@).take(i as int),
                ),
            decreases n - i,
        {
            crate::k8s::merge_pairs(&mut all, &containers[i].env_vars);
            proof {
                let cv = container_infos_view(containers@);
                assert(cv.take(i as int + 1).drop_last() =~= cv.take(i as int));
                assert(cv.take(i as int + 1).last() == cv[i as int]);
                assert(pairs_view(containers@[i as int].env_vars@) == cv[i as int].env_vars);
            }
            i += 1;
        }
        proof {
            assert(container_infos_view(containers@).take(n as int) =~= container_infos_view(
                containers@,
            ));
        }
        all
    }

    /// Validates one observed value against one pattern. `Ok` exactly when
    /// the pattern compiles and matches somewhere within the value; the error
    /// otherwise carries the variable's name and a message naming either the
    /// malformed pattern or the mismatched value.
    pub fn validate_pattern(&self, var_name: &str, value: &str, pattern: &str) -> (r: Result<
        (),
        ValidationError,
    >)
        ensures
            r is Ok <==> spec_pattern_accepts(pattern@, value@),
            r matches Err(e) ==> e@ == spec_validation_error(var_name@, value@, pattern@),
    {
        match regex_search(pattern, value) {
            Ok(found) => {
                if found {
                    Ok(())
                } else {
                    Err(
                        ValidationError {
                            var_name: var_name.to_owned(),
                            message: mismatch_message(value, pattern),
                        },
                    )
                }
            },
            Err(m) => Err(
                ValidationError {
                    var_name: var_name.to_owned(),
                    message: invalid_pattern_message(&m),
                },
            ),
        }
    }

    /// Checks one workload against the schema resolved for the given
    /// environment (or the default, `"development"`). The outcome is exactly
    /// the mathematical check of the workload's flattened variables.
    #[verifier::loop_isolation(false)]
    pub fn check_resource(&self, resource: &K8sResource, environment: Option<&str>) -> (r:
        CheckResult)
        ensures
            r@ == spec_check_resource(self.config@, resource@, spec_env_name(environment)),
    {
        let env_name: String = match environment {
            Some(s) => s.to_owned(),
            None => "development".to_owned(),
        };
        let ghost env = spec_env_name(environment);

        let all_env_vars = self.collect_all_env_vars(&resource.containers);
        let required_vars = self.config.get_required_vars(
            resource.name.as_str(),
            env_name.as_str(),
        );
        let optional_vars = self.config.get_optional_vars(
            resource.name.as_str(),
            env_name.as_str(),
        );

        let ghost flat = pairs_view(all_env_vars@);
        let ghost reqv = vars_view(required_vars@);
        let ghost optv = vars_view(optional_vars@);
        proof {
            assert(reqv == spec_required_vars(self.config@, resource@.name, env));
            assert(optv == spec_optional_vars(self.config@, env));
            assert(flat == spec_collect_env_vars(resource@.containers));
        }

        let mut status = CheckStatus::Passed;
        let mut missing_required: Vec<String> = Vec::new();
        let mut missing_optional: Vec<String> = Vec::new();
        let mut using_defaults: Vec<String> = Vec::new();
        let mut extra_vars: Vec<String> = Vec::new();
        let mut validation_errors: Vec<ValidationError> = Vec::new();
        let mut passed_vars: Vec<(String, String)> = Vec::new();

        let nreq = required_vars.len();
        let mut i: usize = 0;
        proof {
            assert(reqv.take(0) =~= Seq::<EnvVarView>::empty());
        }
        while i < nreq
            invariant
                i <= nreq,
                strings_view(missing_required@) == spec_missing_required(
                    reqv.take(i as int),
                    flat,
                ),
                errors_view(validation_errors@) == spec_validation_errors(
                    reqv.take(i as int),
                    flat,
                ),
                pairs_view(passed_vars@) == spec_passed_required(reqv.take(i as int), flat),
                status == spec_status(
                    spec_missing_required(reqv.take(i as int), flat),
                    spec_validation_errors(reqv.take(i as int), flat),
                    Seq::<Seq<char>>::empty(),
                ),
                missing_optional@.len() == 0,
                using_defaults@.len() == 0,
                extra_vars@.len() == 0,
            decreases nreq - i,
        {
            let var = &required_vars[i];
            proof {
                assert(var@ == reqv[i as int]);
                assert(reqv.take(i as int + 1).drop_last() =~= reqv.take(i as int));
                assert(reqv.take(i as int + 1).last() == reqv[i as int]);
            }
            match flat_get(&all_env_vars, &var.name) {
                None => {
                    let ghost old_mr = missing_required@;
                    missing_required.push(var.name.clone());
                    status = CheckStatus::Failed;
                    proof {
                        assert(strings_view(missing_required@) =~= strings_view(old_mr).push(
                            var.name@,
                        ));
                    }
                },
                Some(value) => {
                    match &var.pattern {
                        Some(p) => {
                            match self.validate_pattern(
                                var.name.as_str(),
                                value.as_str(),
                                p.as_str(),
                            ) {
                                Ok(u) => {
                                    let ghost old_pv = passed_vars@;
                                    passed_vars.push((var.name.clone(), value.clone()));
                                    proof {
                                        assert(pairs_view(passed_vars@) =~= pairs_view(
                                            old_pv,
                                        ).push((var.name@, value@)));
                                    }
                                },
                                Err(e) => {
                                    let ghost old_ve = validation_errors@;
                                    validation_errors.push(e);
                                    status = CheckStatus::Failed;
                                    proof {
                                        assert(errors_view(validation_errors@) =~= errors_view(
                                            old_ve,
                                        ).push(e@));
                                    }
                                },
                            }
                        },
                        None => {
                            let ghost old_pv = passed_vars@;
                            passed_vars.push((var.name.clone(), value.clone()));
                            proof {
                                assert(pairs_view(passed_vars@) =~= pairs_view(old_pv).push(
                                    (var.name@, value@),
                                ));
                            }
                        },
                    }
                },
            }
            i += 1;
        }
        proof {
            assert(reqv.take(nreq as int) =~= reqv);
        }

        let nopt = optional_vars.len();
        let mut j: usize = 0;
        proof {
            assert(optv.take(0) =~= Seq::<EnvVarView>::empty());
        }
        while j < nopt
            invariant
                j <= nopt,
                strings_view(missing_optional@) == spec_missing_optional(
                    optv.take(j as int),
                    flat,
                ),
                strings_view(using_defaults@) == spec_using_defaults(optv.take(j as int), flat),
                pairs_view(passed_vars@) == spec_passed_required(reqv, flat)
                    + spec_passed_optional(optv.take(j as int), flat),
                strings_view(missing_required@) == spec_missing_required(reqv, flat),
                errors_view(validation_errors@) == spec_validation_errors(reqv, flat),
                status == spec_status(
                    spec_missing_required(reqv, flat),
                    spec_validation_errors(reqv, flat),
                    spec_missing_optional(optv.take(j as int), flat),
                ),
                extra_vars@.len() == 0,
            decreases nopt - j,
        {
            let var = &optional_vars[j];
            proof {
                assert(var@ == optv[j as int]);
                assert(optv.take(j as int + 1).drop_last() =~= optv.take(j as int));
                assert(optv.take(j as int + 1).last() == optv[j as int]);
            }
            match flat_get(&all_env_vars, &var.name) {
                None => {
                    if var.default.is_some() {
                        let ghost old_ud = using_defaults@;
                        using_defaults.push(var.name.clone());
                        proof {
                            assert(strings_view(using_defaults@) =~= strings_view(old_ud).push(
                                var.name@,
                            ));
                        }
                    } else {
                        let ghost old_mo = missing_optional@;
                        missing_optional.push(var.name.clone());
                        if matches!(status, CheckStatus::Passed) {
                            status = CheckStatus::Warning;
                        }
                        proof {
                            assert(strings_view(missing_optional@) =~= strings_view(old_mo).push(
                                var.name@,
                            ));
                        }
                    }
                },
                Some(value) => {
                    let ghost old_pv = passed_vars@;
                    passed_vars.push((var.name.clone(), value.clone()));
                    proof {
                        assert(pairs_view(passed_vars@) =~= pairs_view(old_pv).push(
                            (var.name@, value@),
                        ));
                        assert(pairs_view(passed_vars@) =~= spec_passed_required(reqv, flat)
                            + spec_passed_optional(optv.take(j as int + 1), flat));
                    }
                },
            }
            j += 1;
        }
        proof {
            assert(optv.take(nopt as int) =~= optv);
        }

        let mut expected: Vec<String> = Vec::new();
        let mut a: usize = 0;
        proof {
            assert(strings_view(expected@) =~= names_of(reqv.take(0)));
        }
        while a < nreq
            invariant
                a <= nreq,
                strings_view(expected@) == names_of(reqv.take(a as int)),
            decreases nreq - a,
        {
            let ghost old_ex = expected@;
            expected.push(required_vars[a].name.clone());
            proof {
                assert(reqv.take(a as int + 1).drop_last() =~= reqv.take(a as int));
                assert(reqv.take(a as int + 1).last() == reqv[a as int]);
                assert(strings_view(expected@) =~= strings_view(old_ex).push(
                    required_vars@[a as int].name@,
                ));
                assert(names_of(reqv.take(a as int + 1)) =~= names_of(reqv.take(a as int)).push(
                    reqv[a as int].name,
                ));
            }
            a += 1;
        }
        proof {
            assert(reqv.take(nreq as int) =~= reqv);
        }
        let mut b: usize = 0;
        proof {
            assert(strings_view(expected@) =~= names_of(reqv) + names_of(optv.take(0)));
        }
        while b < nopt
            invariant
                b <= nopt,
                strings_view(expected@) == names_of(reqv) + names_of(optv.take(b as int)),
            decreases nopt - b,
        {
            let ghost old_ex = expected@;
            expected.push(optional_vars[b].name.clone());
            proof {
                assert(optv.take(b as int + 1).drop_last() =~= optv.take(b as int));
                assert(optv.take(b as int + 1).last() == optv[b as int]);
                assert(strings_view(expected@) =~= strings_view(old_ex).push(
                    optional_vars@[b as int].name@,
                ));
                assert(names_of(optv.take(b as int + 1)) =~= names_of(optv.take(b as int)).push(
                    optv[b as int].name,
                ));
                assert(strings_view(expected@) =~= names_of(reqv) + names_of(
                    optv.take(b as int + 1),
                ));
            }
            b += 1;
        }
        proof {
            assert(optv.take(nopt as int) =~= optv);
            assert(strings_view(expected@) == spec_expected_names(reqv, optv));
        }

        let nflat = all_env_vars.len();
        let mut k: usize = 0;
        proof {
            assert(flat.take(0) =~= Seq::<(Seq<char>, Seq<char>)>::empty());
        }
        while k < nflat
            invariant
                k <= nflat,
                strings_view(extra_vars@) == spec_extra_vars(
                    flat.take(k as int),
                    spec_expected_names(reqv, optv),
                ),
            decreases nflat - k,
        {
            proof {
                assert(flat.take(k as int + 1).drop_last() =~= flat.take(k as int));
                assert(flat.take(k as int + 1).last() == flat[k as int]);
                assert(flat[k as int] == (all_env_vars@[k as int].0@, all_env_vars@[k as int].1@));
            }
            if !crate::config::contains_string(&expected, &all_env_vars[k].0) {
                let ghost old_xv = extra_vars@;
                extra_vars.push(all_env_vars[k].0.clone());
                proof {
                    assert(strings_view(extra_vars@) =~= strings_view(old_xv).push(
                        all_env_vars@[k as int].0@,
                    ));
                }
            }
            k += 1;
        }
        proof {
            assert(flat.take(nflat as int) =~= flat);
        }

        let result = CheckResult {
            app_name: resource.name.clone(),
            status,
            missing_required,
            missing_optional,
            using_defaults,
            extra_vars,
            validation_errors,
            passed_vars,
        };
        proof {
            assert(result@ == spec_check_resource(self.config@, resource@, env));
        }
        result
    }

    /// Checks every workload against the same schema and environment, in
    /// input order.
    #[verifier::loop_isolation(false)]
    pub fn check_resources(&self, resources: &Vec<K8sResource>, environment: Option<&str>) -> (r:
        Vec<CheckResult>)
        ensures
            r@.len() == resources@.len(),
            forall|i: int|
                0 <= i < r@.len() ==> r@[i]@ == spec_check_resource(
                    self.config@,
                    resources@[i]@,
                    spec_env_name(environment),
                ),
    {
        let mut results: Vec<CheckResult> = Vec::new();
        let n = resources.len();
        let mut i: usize = 0;
        while i < n
            invariant
                i <= n,
                results@.len() == i,
                forall|k: int|
                    0 <= k < i ==> results@[k]@ == spec_check_resource(
                        self.config@,
                        resources@[k]@,
                        spec_env_name(environment),
                    ),
            decreases n - i,
        {
            let outcome = self.check_resource(&resources[i], environment);
            results.push(outcome);
            i += 1;
        }
        results
    }
}

// ---------------------------------------------------------------------------
// Laws of the check.
// ---------------------------------------------------------------------------

proof fn lemma_push_preserves_contains<T>(s: Seq<T>, x: T, y: T)
    requires
        s.contains(x),
    ensures
        s.push(y).contains(x),
{
    let idx = choose|idx: int| 0 <= idx < s.len() && s[idx] == x;
    assert(s.push(y)[idx] == x);
}

proof fn lemma_concat_left_contains<T>(a: Seq<T>, b: Seq<T>, x: T)
    requires
        a.contains(x),
    ensures
        (a + b).contains(x),
{
    let idx = choose|idx: int| 0 <= idx < a.len() && a[idx] == x;
    assert((a + b)[idx] == x);
}

proof fn lemma_empty_flat_required(req: Seq<EnvVarView>)
    ensures
        spec_missing_required(req, Seq::<(Seq<char>, Seq<char>)>::empty()) == names_of(req),
        spec_validation_errors(req, Seq::<(Seq<char>, Seq<char>)>::empty()) == Seq::<
            ValidationErrorView,
        >::empty(),
    decreases req.len(),
{
    let flat = Seq::<(Seq<char>, Seq<char>)>::empty();
    if req.len() == 0 {
        assert(names_of(req) =~= Seq::<Seq<char>>::empty());
    } else {
        lemma_empty_flat_required(req.drop_last());
        assert(assoc_get(flat, req.last().name) is None);
        assert(names_of(req) =~= names_of(req.drop_last()).push(req.last().name));
    }
}

/// A workload that declares no variables at all fails against a schema with
/// at least one required variable, and the missing-required list holds
/// exactly the required names, in declaration order.
pub proof fn lemma_empty_vars_all_missing(c: ConfigView, resource: K8sResourceView, env: Seq<char>)
    requires
        spec_collect_env_vars(resource.containers) == Seq::<(Seq<char>, Seq<char>)>::empty(),
        spec_required_vars(c, resource.name, env).len() >= 1,
    ensures
        spec_check_resource(c, resource, env).status == CheckStatus::Failed,
        spec_check_resource(c, resource, env).missing_required == names_of(
            spec_required_vars(c, resource.name, env),
        ),
{
    let req = spec_required_vars(c, resource.name, env);
    lemma_empty_flat_required(req);
    assert(names_of(req).len() == req.len());
}

proof fn lemma_missing_required_only_absent(
    req: Seq<EnvVarView>,
    flat: Seq<(Seq<char>, Seq<char>)>,
    name: Seq<char>,
)
    requires
        spec_missing_required(req, flat).contains(name),
    ensures
        assoc_get(flat, name) is None,
    decreases req.len(),
{
    if req.len() == 0 {
    } else {
        let prev = spec_missing_required(req.drop_last(), flat);
        if assoc_get(flat, req.last().name) is None {
            let cur = prev.push(req.last().name);
            let idx = choose|idx: int| 0 <= idx < cur.len() && cur[idx] == name;
            if idx < prev.len() {
                assert(prev[idx] == name);
                assert(prev.contains(name));
                lemma_missing_required_only_absent(req.drop_last(), flat, name);
            } else {
                assert(name == req.last().name);
            }
        } else {
            lemma_missing_required_only_absent(req.drop_last(), flat, name);
        }
    }
}

proof fn lemma_passed_required_present(
    req: Seq<EnvVarView>,
    flat: Seq<(Seq<char>, Seq<char>)>,
    i: int,
    value: Seq<char>,
)
    requires
        0 <= i < req.len(),
        req[i].pattern is None,
        assoc_get(flat, req[i].name) == Some(value),
    ensures
        spec_passed_required(req, flat).contains((req[i].name, value)),
    decreases req.len(),
{
    let cur = spec_passed_required(req, flat);
    let prev = spec_passed_required(req.drop_last(), flat);
    let l = req.last();
    if i == req.len() - 1 {
        assert(cur == prev.push((l.name, value)));
        assert(cur[cur.len() - 1] == (req[i].name, value));
        assert(cur.contains((req[i].name, value)));
    } else {
        assert(req.drop_last()[i] == req[i]);
        lemma_passed_required_present(req.drop_last(), flat, i, value);
        let pair = (req[i].name, value);
        match assoc_get(flat, l.name) {
            Some(v2) => {
                match l.pattern {
                    Some(p) => {
                        if spec_pattern_accepts(p, v2) {
                            assert(cur == prev.push((l.name, v2)));
                            lemma_push_preserves_contains(prev, pair, (l.name, v2));
                        } else {
                            assert(cur == prev);
                        }
                    },
                    None => {
                        assert(cur == prev.push((l.name, v2)));
                        lemma_push_preserves_contains(prev, pair, (l.name, v2));
                    },
                }
            },
            None => {
                assert(cur == prev);
            },
        }
    }
}

/// A required variable that is present with no declared pattern is recorded
/// among the satisfied pairs, with its observed value, and never among the
/// missing-required names.
pub proof fn lemma_required_present_satisfied(
    c: ConfigView,
    resource: K8sResourceView,
    env: Seq<char>,
    i: int,
    value: Seq<char>,
)
    requires
        0 <= i < spec_required_vars(c, resource.name, env).len(),
        spec_required_vars(c, resource.name, env)[i].pattern is None,
        assoc_get(
            spec_collect_env_vars(resource.containers),
            spec_required_vars(c, resource.name, env)[i].name,
        ) == Some(value),
    ensures
        spec_check_resource(c, resource, env).passed_vars.contains(
            (spec_required_vars(c, resource.name, env)[i].name, value),
        ),
        !spec_check_resource(c, resource, env).missing_required.contains(
            spec_required_vars(c, resource.name, env)[i].name,
        ),
{
    let req = spec_required_vars(c, resource.name, env);
    let opt = spec_optional_vars(c, env);
    let flat = spec_collect_env_vars(resource.containers);
    lemma_passed_required_present(req, flat, i, value);
    lemma_concat_left_contains(
        spec_passed_required(req, flat),
        spec_passed_optional(opt, flat),
        (req[i].name, value),
    );
    if spec_missing_required(req, flat).contains(req[i].name) {
        lemma_missing_required_only_absent(req, flat, req[i].name);
    }
}

/// The rank of a status in the lattice Passed < Warning < Failed.
pub open spec fn status_rank(s: CheckStatus) -> int {
    match s {
        CheckStatus::Passed => 0,
        CheckStatus::Warning => 1,
        CheckStatus::Failed => 2,
    }
}

/// The outcome status is the join of the statuses its recorded findings
/// imply: it is Failed exactly when a required variable is missing or a
/// pattern failed, Warning exactly when there is no such failure but an
/// optional variable without a default is missing, and Passed otherwise.
/// In particular a check that records a failure can never end below Failed:
/// the status is the maximum of the per-finding ranks, so escalation is
/// monotonic and Failed is never downgraded.
pub proof fn lemma_status_is_join(c: ConfigView, resource: K8sResourceView, env: Seq<char>)
    ensures
        ({
            let r = spec_check_resource(c, resource, env);
            &&& (r.status == CheckStatus::Failed <==> r.missing_required.len()
                + r.validation_errors.len() > 0)
            &&& (r.status == CheckStatus::Warning <==> r.missing_required.len()
                + r.validation_errors.len() == 0 && r.missing_optional.len() > 0)
            &&& (r.status == CheckStatus::Passed <==> r.missing_required.len()
                + r.validation_errors.len() == 0 && r.missing_optional.len() == 0)
            &&& status_rank(r.status) == (if r.missing_required.len() + r.validation_errors.len()
                > 0 {
                2int
            } else if r.missing_optional.len() > 0 {
                1int
            } else {
                0int
            })
        }),
{
}

/// Checking is a pure function of the workload, the schema, and the
/// environment name: two runs on the same triple yield identical outcomes.
/// The executable check ensures its result's model equals
/// [`spec_check_resource`] of its inputs alone, so any two of its results on
/// the same inputs coincide.
pub proof fn lemma_check_deterministic(
    c: ConfigView,
    resource: K8sResourceView,
    env: Seq<char>,
    r1: CheckResultView,
    r2: CheckResultView,
)
    requires
        r1 == spec_check_resource(c, resource, env),
        r2 == spec_check_resource(c, resource, env),
    ensures
        r1 == r2,
{
}

} // verus!
