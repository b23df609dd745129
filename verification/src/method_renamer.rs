//! Parsing a JSON-RPC method name into namespace, api and method, the
//! translation of some namespaces to `condenser_api`, and the renaming of
//! methods that the configuration asks for.

use vstd::prelude::*;
use vstd::set_lib::lemma_len_subset;

use crate::config::AppConfig;
use crate::json::{lemma_items_model, JsonModel, JsonValue, items_model};
use crate::protocol::{opt_json_view, APIRequest, ID, IdModel, RequestModel};
use crate::text::{dot_free, ends_with_text, lemma_split_append_piece, lemma_split_dot_free, has_suffix, join_dots, lemma_join_split, lemma_split_dots_nonempty, same_text, split_dots, split_on_dots, views};
use crate::trie::ref_views;

verus! {

/// A method call, parsed.
#[derive(Debug, PartialEq)]
pub struct MethodAndParams {
    pub namespace: String,
    pub api: Option<String>,
    pub method: String,
    pub params: Option<JsonValue>,
    /// the method as called (usually api.method)
    pub full_method: String,
}

/// The model of a `MethodAndParams`.
pub struct MethodModel {
    pub namespace: Seq<char>,
    pub api: Option<Seq<char>>,
    pub method: Seq<char>,
    pub params: Option<JsonModel>,
    pub full_method: Seq<char>,
}

pub open spec fn opt_string_view(o: Option<String>) -> Option<Seq<char>> {
    match o {
        Some(s) => Some(s@),
        None => None,
    }
}

impl View for MethodAndParams {
    type V = MethodModel;

    open spec fn view(&self) -> MethodModel {
        MethodModel {
            namespace: self.namespace@,
            api: opt_string_view(self.api),
            method: self.method@,
            params: opt_json_view(self.params),
            full_method: self.full_method@,
        }
    }
}

/// The model of a parse result.
pub open spec fn parsed_view(r: Result<MethodAndParams, String>) -> Result<MethodModel, Seq<char>> {
    match r {
        Ok(m) => Ok(m@),
        Err(e) => Err(e@),
    }
}

/// The model of a result that is a name or an error message.
pub open spec fn text_result_view(r: Result<String, String>) -> Result<Seq<char>, Seq<char>> {
    match r {
        Ok(s) => Ok(s@),
        Err(e) => Err(e@),
    }
}

/// `[namespace, api, method]`, or `[namespace, method]` where there is no
/// api.
pub open spec fn name_parts(m: MethodModel) -> Seq<Seq<char>> {
    match m.api {
        Some(api) => seq![m.namespace, api, m.method],
        None => seq![m.namespace, m.method],
    }
}

/// The name parts joined with dots.
pub open spec fn dotted(m: MethodModel) -> Seq<char> {
    match m.api {
        Some(api) => m.namespace + seq!['.'] + api + seq!['.'] + m.method,
        None => m.namespace + seq!['.'] + m.method,
    }
}

/// The dotted name is the name parts joined with dots.
pub proof fn lemma_dotted_is_joined_parts(m: MethodModel)
    ensures
        dotted(m) == join_dots(name_parts(m)),
{
    reveal_with_fuel(join_dots, 3);
    let p = name_parts(m);
    match m.api {
        Some(api) => {
            assert(p.drop_last().drop_last() =~= seq![m.namespace]);
            assert(p.drop_last() =~= seq![m.namespace, api]);
        },
        None => {
            assert(p.drop_last() =~= seq![m.namespace]);
        },
    }
}

/// An api given by number or by name.
pub open spec fn decode_api_spec(api: JsonModel) -> Result<Seq<char>, Seq<char>> {
    match api.as_i64() {
        Some(n) => if n == 0 {
            Ok("database_api"@)
        } else if n == 1 {
            Ok("login_api"@)
        } else {
            Err("Invalid API number"@)
        },
        None => match api.as_str() {
            Some(s) => Ok(s),
            None => Err("Invalid API"@),
        },
    }
}

/// The parameters of a `call`: `[api, method]` or `[api, method, params]`.
pub open spec fn call_spec(params: Option<JsonModel>) -> Result<MethodModel, Seq<char>> {
    match params {
        Some(JsonModel::Array(items)) => if items.len() == 2 || items.len() == 3 {
            match decode_api_spec(items[0]) {
                Err(e) => Err(e),
                Ok(api_part) => match items[1].as_str() {
                    None => Err("Invalid method name"@),
                    Some(method_part) => Ok(
                        MethodModel {
                            namespace: if items.len() == 3 && (items[0].as_str() == Some(
                                "condenser_api"@,
                            ) || items[0].as_str() == Some("jsonrpc"@) || items[2].is_object()) {
                                "appbase"@
                            } else if items.len() == 3 {
                                "hived"@
                            } else {
                                "appbase"@
                            },
                            api: Some(api_part),
                            method: method_part,
                            params: if items.len() == 3 {
                                Some(items[2])
                            } else {
                                None
                            },
                            full_method: api_part + seq!['.'] + method_part,
                        },
                    ),
                },
            }
        } else {
            Err("error"@)
        },
        _ => Err("error"@),
    }
}

/// A method name parsed the way the routing rules parse it.
pub open spec fn convert_spec(full: Seq<char>, params: Option<JsonModel>) -> Result<MethodModel, Seq<char>> {
    let parts = split_dots(full);
    if parts.len() == 1 {
        if parts[0] == "call"@ {
            call_spec(params)
        } else {
            Ok(
                MethodModel {
                    namespace: "hived"@,
                    api: Some("database_api"@),
                    method: parts[0],
                    params,
                    full_method: full,
                },
            )
        }
    } else if parts.len() == 2 {
        if has_suffix(parts[0], "_api"@) || parts[0] == "jsonrpc"@ {
            Ok(
                MethodModel {
                    namespace: "appbase"@,
                    api: Some(parts[0]),
                    method: parts[1],
                    params,
                    full_method: full,
                },
            )
        } else {
            Ok(MethodModel { namespace: parts[0], api: None, method: parts[1], params, full_method: full })
        }
    } else if parts.len() == 3 {
        Ok(
            MethodModel {
                namespace: parts[0],
                api: Some(parts[1]),
                method: parts[2],
                params,
                full_method: full,
            },
        )
    } else {
        Err("Error parsing method"@)
    }
}

/// The call re-expressed as a `condenser_api` call.
pub open spec fn translate_spec(m: MethodModel) -> Result<MethodModel, Seq<char>> {
    call_spec(
        Some(
            JsonModel::Array(
                seq![
                    JsonModel::Str("condenser_api"@),
                    JsonModel::Str(m.method),
                    match m.params {
                        Some(p) => p,
                        None => JsonModel::Array(Seq::empty()),
                    },
                ],
            ),
        ),
    )
}

/// One round of the routing rules: parse the name, then translate it to
/// `condenser_api` where its namespace asks for that.
pub open spec fn rename_step(translate: Set<Seq<char>>, method: Seq<char>, params: Option<JsonModel>) -> Result<
    MethodModel,
    Seq<char>,
> {
    match convert_spec(method, params) {
        Err(e) => Err(e),
        Ok(m) => if translate.contains(m.namespace) {
            translate_spec(m)
        } else {
            Ok(m)
        },
    }
}

/// The routing rules applied at most `fuel` times, each renamed method
/// starting a new round; `None` where `fuel` rounds do not reach a method
/// that is not renamed.
pub open spec fn rename_within(
    translate: Set<Seq<char>>,
    equivalents: Map<Seq<char>, Seq<char>>,
    method: Seq<char>,
    params: Option<JsonModel>,
    fuel: nat,
) -> Option<Result<MethodModel, Seq<char>>>
    decreases fuel,
{
    if fuel == 0 {
        None
    } else {
        match rename_step(translate, method, params) {
            Err(e) => Some(Err(e)),
            Ok(m) => if equivalents.contains_key(dotted(m)) {
                rename_within(translate, equivalents, equivalents[dotted(m)], m.params, (fuel - 1) as nat)
            } else {
                Some(Ok(m))
            },
        }
    }
}

/// The renaming of `method` ends.
pub open spec fn rename_terminates(cfg: &AppConfig, method: Seq<char>, params: Option<JsonModel>) -> bool {
    exists|n: nat|
        #[trigger] rename_within(cfg.translate_to_appbase@, cfg.equivalent_methods@, method, params, n)
            is Some
}

/// Where the renaming of `method` ends.
pub open spec fn renamed(cfg: &AppConfig, method: Seq<char>, params: Option<JsonModel>) -> Result<
    MethodModel,
    Seq<char>,
> {
    let n = choose|n: nat|
        #[trigger] rename_within(cfg.translate_to_appbase@, cfg.equivalent_methods@, method, params, n)
            is Some;
    rename_within(cfg.translate_to_appbase@, cfg.equivalent_methods@, method, params, n)->0
}

impl MethodAndParams {
    /// get [namespace, api, method], or just [namespace, method] if no API
    pub fn get_method_name_parts(&self) -> (parts: Vec<&String>)
        ensures
            ref_views(parts@) == name_parts(self@),
    {
        let mut parts: Vec<&String> = Vec::new();
        parts.push(&self.namespace);
        match &self.api {
            Some(api) => {
                parts.push(api);
            },
            None => {},
        }
        parts.push(&self.method);
        assert(ref_views(parts@) =~= name_parts(self@));
        parts
    }

    /// same as get_method_name_parts, but as a dotted string
    pub fn get_dotted_method_name(&self) -> (name: String)
        ensures
            name@ == dotted(self@),
    {
        proof {
            reveal_strlit(".");
        }
        let mut name = self.namespace.clone();
        match &self.api {
            Some(api) => {
                name.append(".");
                name.append(api.as_str());
            },
            None => {},
        }
        name.append(".");
        name.append(self.method.as_str());
        name
    }

    /// A copy of the parsed call.
    pub fn clone_method(&self) -> (r: MethodAndParams)
        ensures
            r@ == self@,
    {
        MethodAndParams {
            namespace: self.namespace.clone(),
            api: match &self.api {
                Some(a) => Some(a.clone()),
                None => None,
            },
            method: self.method.clone(),
            params: copy_params(&self.params),
            full_method: self.full_method.clone(),
        }
    }

    /// The request to pass to the upstream.
    pub fn format_for_upstream(&self, _app_config: &AppConfig) -> (request: APIRequest)
        ensures
            request@ == (RequestModel {
                jsonrpc: "2.0"@,
                id: IdModel::Int(1),
                method: self.full_method@,
                params: self@.params,
            }),
    {
        APIRequest {
            id: ID::Int(1),
            jsonrpc: "2.0".to_owned(),
            method: self.full_method.clone(),
            params: copy_params(&self.params),
        }
    }
}

/// A copy of the parameters.
pub fn copy_params(params: &Option<JsonValue>) -> (r: Option<JsonValue>)
    ensures
        opt_json_view(r) == opt_json_view(*params),
{
    match params {
        Some(p) => Some(p.copy_value()),
        None => None,
    }
}

/// Whether `v` is the string `text`.
fn is_text(v: &JsonValue, text: &str) -> (r: bool)
    ensures
        r == (v@.as_str() == Some(text@)),
{
    match v.as_str() {
        Some(s) => same_text(s, text),
        None => false,
    }
}

/// The api of a `call`, given by number (0 and 1) or by name.
pub fn decode_api_if_numeric(api: &JsonValue) -> (r: Result<String, String>)
    ensures
        text_result_view(r) == decode_api_spec(api@),
{
    if let Some(number) = api.as_i64() {
        if number == 0 {
            Ok("database_api".to_owned())
        } else if number == 1 {
            Ok("login_api".to_owned())
        } else {
            Err("Invalid API number".to_owned())
        }
    } else {
        match api.as_str() {
            Some(api_string) => Ok(api_string.to_owned()),
            None => Err("Invalid API".to_owned()),
        }
    }
}

/// The method that a `call` with these parameters calls.
pub fn parse_call(params: &Option<JsonValue>) -> (r: Result<MethodAndParams, String>)
    ensures
        parsed_view(r) == call_spec(opt_json_view(*params)),
{
    match params {
        Some(JsonValue::Array(items)) => {
            proof {
                lemma_items_model(items@);
            }
            let n = items.len();
            if n == 2 || n == 3 {
                let api_part = match decode_api_if_numeric(&items[0]) {
                    Ok(a) => a,
                    Err(e) => {
                        return Err(e);
                    },
                };
                let method_part = match items[1].as_str() {
                    Some(m) => m,
                    None => {
                        return Err("Invalid method name".to_owned());
                    },
                };
                proof {
                    reveal_strlit(".");
                }
                let full_method = api_part.clone().concat(".").concat(method_part);
                assert(full_method@ =~= api_part@ + seq!['.'] + method_part@);
                if n == 2 {
                    Ok(
                        MethodAndParams {
                            namespace: "appbase".to_owned(),
                            api: Some(api_part),
                            method: method_part.to_owned(),
                            params: None,
                            full_method,
                        },
                    )
                } else {
                    let namespace = if is_text(&items[0], "condenser_api") || is_text(
                        &items[0],
                        "jsonrpc",
                    ) || items[2].is_object() {
                        "appbase".to_owned()
                    } else {
                        "hived".to_owned()
                    };
                    Ok(
                        MethodAndParams {
                            namespace,
                            api: Some(api_part),
                            method: method_part.to_owned(),
                            params: Some(items[2].copy_value()),
                            full_method,
                        },
                    )
                }
            } else {
                Err("error".to_owned())
            }
        },
        _ => Err("error".to_owned()),
    }
}

/// A method name parsed into namespace, api and method, by the number of
/// its dot-separated parts.
pub fn convert_method_name(full_method: &str, params: &Option<JsonValue>) -> (r: Result<
    MethodAndParams,
    String,
>)
    ensures
        parsed_view(r) == convert_spec(full_method@, opt_json_view(*params)),
{
    let parts = split_on_dots(full_method);
    proof {
        lemma_split_dots_nonempty(full_method@);
        assert(views(parts@).len() == parts@.len());
    }
    let n = parts.len();
    if n == 1 {
        assert(parts@[0]@ == split_dots(full_method@)[0]);
        if same_text(parts[0].as_str(), "call") {
            parse_call(params)
        } else {
            Ok(
                MethodAndParams {
                    namespace: "hived".to_owned(),
                    api: Some("database_api".to_owned()),
                    method: parts[0].clone(),
                    params: copy_params(params),
                    full_method: full_method.to_owned(),
                },
            )
        }
    } else if n == 2 {
        assert(parts@[0]@ == split_dots(full_method@)[0]);
        assert(parts@[1]@ == split_dots(full_method@)[1]);
        if ends_with_text(parts[0].as_str(), "_api") || same_text(parts[0].as_str(), "jsonrpc") {
            Ok(
                MethodAndParams {
                    namespace: "appbase".to_owned(),
                    api: Some(parts[0].clone()),
                    method: parts[1].clone(),
                    params: copy_params(params),
                    full_method: full_method.to_owned(),
                },
            )
        } else {
            Ok(
                MethodAndParams {
                    namespace: parts[0].clone(),
                    api: None,
                    method: parts[1].clone(),
                    params: copy_params(params),
                    full_method: full_method.to_owned(),
                },
            )
        }
    } else if n == 3 {
        assert(parts@[0]@ == split_dots(full_method@)[0]);
        assert(parts@[1]@ == split_dots(full_method@)[1]);
        assert(parts@[2]@ == split_dots(full_method@)[2]);
        Ok(
            MethodAndParams {
                namespace: parts[0].clone(),
                api: Some(parts[1].clone()),
                method: parts[2].clone(),
                params: copy_params(params),
                full_method: full_method.to_owned(),
            },
        )
    } else {
        Err("Error parsing method".to_owned())
    }
}

/// The call re-expressed as a `condenser_api` call of the same method, its
/// parameters (an empty array where it has none) passed along.
pub fn translate_to_appbase(method_and_params: MethodAndParams) -> (r: Result<MethodAndParams, String>)
    ensures
        parsed_view(r) == translate_spec(method_and_params@),
{
    let ghost m = method_and_params@;
    let params = match method_and_params.params {
        Some(p) => p,
        None => {
            let no_items: Vec<JsonValue> = Vec::new();
            assert(items_model(no_items@) =~= Seq::<JsonModel>::empty());
            JsonValue::Array(no_items)
        },
    };
    let items = vec![
        JsonValue::Str("condenser_api".to_owned()),
        JsonValue::Str(method_and_params.method),
        params,
    ];
    proof {
        lemma_items_model(items@);
        assert(items_model(items@) =~= seq![
            JsonModel::Str("condenser_api"@),
            JsonModel::Str(m.method),
            match m.params {
                Some(p) => p,
                None => JsonModel::Array(Seq::empty()),
            },
        ]);
    }
    parse_call(&Some(JsonValue::Array(items)))
}

/// More rounds do not change an answer that fewer rounds already gave.
pub proof fn lemma_rename_within_monotone(
    translate: Set<Seq<char>>,
    equivalents: Map<Seq<char>, Seq<char>>,
    method: Seq<char>,
    params: Option<JsonModel>,
    fuel: nat,
    more: nat,
)
    requires
        rename_within(translate, equivalents, method, params, fuel) is Some,
        fuel <= more,
    ensures
        rename_within(translate, equivalents, method, params, more) == rename_within(
            translate,
            equivalents,
            method,
            params,
            fuel,
        ),
    decreases fuel,
{
    match rename_step(translate, method, params) {
        Err(_) => {},
        Ok(m) => {
            if equivalents.contains_key(dotted(m)) {
                lemma_rename_within_monotone(
                    translate,
                    equivalents,
                    equivalents[dotted(m)],
                    m.params,
                    (fuel - 1) as nat,
                    (more - 1) as nat,
                );
            }
        },
    }
}

/// Where the renaming ends, it ends on a method that is not renamed.
pub proof fn lemma_rename_result_not_renamed(
    translate: Set<Seq<char>>,
    equivalents: Map<Seq<char>, Seq<char>>,
    method: Seq<char>,
    params: Option<JsonModel>,
    fuel: nat,
)
    requires
        rename_within(translate, equivalents, method, params, fuel) matches Some(Ok(_)),
    ensures
        !equivalents.contains_key(
            dotted(rename_within(translate, equivalents, method, params, fuel)->0->Ok_0),
        ),
    decreases fuel,
{
    match rename_step(translate, method, params) {
        Err(_) => {},
        Ok(m) => {
            if equivalents.contains_key(dotted(m)) {
                lemma_rename_result_not_renamed(
                    translate,
                    equivalents,
                    equivalents[dotted(m)],
                    m.params,
                    (fuel - 1) as nat,
                );
            }
        },
    }
}

/// A bound on the rounds that the renaming ends within gives the same
/// answer as the unbounded renaming.
pub proof fn lemma_bounded_rename_agrees(cfg: &AppConfig, method: Seq<char>, params: Option<JsonModel>, fuel: nat)
    requires
        rename_within(cfg.translate_to_appbase@, cfg.equivalent_methods@, method, params, fuel) is Some,
    ensures
        rename_terminates(cfg, method, params),
        renamed(cfg, method, params) == rename_within(
            cfg.translate_to_appbase@,
            cfg.equivalent_methods@,
            method,
            params,
            fuel,
        )->0,
{
    let t = cfg.translate_to_appbase@;
    let e = cfg.equivalent_methods@;
    assert(rename_terminates(cfg, method, params));
    let n = choose|n: nat| #[trigger] rename_within(t, e, method, params, n) is Some;
    if n <= fuel {
        lemma_rename_within_monotone(t, e, method, params, n, fuel);
    } else {
        lemma_rename_within_monotone(t, e, method, params, fuel, n);
    }
}

/// The renaming ends on a method that no rule renames.
pub proof fn lemma_renamed_is_final(cfg: &AppConfig, method: Seq<char>, params: Option<JsonModel>)
    requires
        rename_terminates(cfg, method, params),
    ensures
        renamed(cfg, method, params) matches Ok(m) ==> !cfg.equivalent_methods@.contains_key(
            dotted(m),
        ),
{
    let t = cfg.translate_to_appbase@;
    let e = cfg.equivalent_methods@;
    let n = choose|n: nat| #[trigger] rename_within(t, e, method, params, n) is Some;
    if renamed(cfg, method, params) is Ok {
        lemma_rename_result_not_renamed(t, e, method, params, n);
    }
}

/// A method that no rule renames and whose namespace is not translated is
/// answered by one round of parsing.
pub proof fn lemma_unrenamed_method(cfg: &AppConfig, method: Seq<char>, params: Option<JsonModel>)
    requires
        convert_spec(method, params) matches Ok(m) && !cfg.translate_to_appbase@.contains(m.namespace)
            && !cfg.equivalent_methods@.contains_key(dotted(m)),
    ensures
        rename_terminates(cfg, method, params),
        renamed(cfg, method, params) == convert_spec(method, params),
{
    lemma_bounded_rename_agrees(cfg, method, params, 1);
}

/// A round that a rule renames is followed by the renaming of the new
/// name, with the parameters of the parsed call.
proof fn lemma_rename_within_step(
    translate: Set<Seq<char>>,
    equivalents: Map<Seq<char>, Seq<char>>,
    method: Seq<char>,
    params: Option<JsonModel>,
    m: MethodModel,
    fuel: nat,
)
    requires
        rename_step(translate, method, params) == Ok::<MethodModel, Seq<char>>(m),
        equivalents.contains_key(dotted(m)),
    ensures
        rename_within(translate, equivalents, method, params, fuel + 1) == rename_within(
            translate,
            equivalents,
            equivalents[dotted(m)],
            m.params,
            fuel,
        ),
        rename_within(translate, equivalents, method, params, 0) is None,
{
}

/// Renaming a call whose parsed form a rule renames is renaming the new
/// name with the parameters of the parsed call: the one ends exactly when
/// the other does, with the same answer.
pub proof fn lemma_rename_restarts(cfg: &AppConfig, method: Seq<char>, params: Option<JsonModel>, m: MethodModel)
    requires
        rename_step(cfg.translate_to_appbase@, method, params) == Ok::<MethodModel, Seq<char>>(m),
        cfg.equivalent_methods@.contains_key(dotted(m)),
    ensures
        rename_terminates(cfg, method, params) <==> rename_terminates(
            cfg,
            cfg.equivalent_methods@[dotted(m)],
            m.params,
        ),
        rename_terminates(cfg, method, params) ==> renamed(cfg, method, params) == renamed(
            cfg,
            cfg.equivalent_methods@[dotted(m)],
            m.params,
        ),
{
    let t = cfg.translate_to_appbase@;
    let e = cfg.equivalent_methods@;
    let next = e[dotted(m)];
    if rename_terminates(cfg, method, params) {
        let n = choose|n: nat| #[trigger] rename_within(t, e, method, params, n) is Some;
        lemma_rename_within_step(t, e, method, params, m, 0);
        lemma_rename_within_step(t, e, method, params, m, (n - 1) as nat);
        lemma_bounded_rename_agrees(cfg, next, m.params, (n - 1) as nat);
        lemma_bounded_rename_agrees(cfg, method, params, n);
    }
    if rename_terminates(cfg, next, m.params) {
        let k = choose|k: nat| #[trigger] rename_within(t, e, next, m.params, k) is Some;
        lemma_rename_within_step(t, e, method, params, m, k);
        lemma_bounded_rename_agrees(cfg, method, params, k + 1);
    }
}

/// The dotted names that the rules rename in the first `fuel` rounds, in
/// the order the rounds reach them.
pub open spec fn renamed_names(
    translate: Set<Seq<char>>,
    equivalents: Map<Seq<char>, Seq<char>>,
    method: Seq<char>,
    params: Option<JsonModel>,
    fuel: nat,
) -> Seq<Seq<char>>
    decreases fuel,
{
    if fuel == 0 {
        Seq::empty()
    } else {
        match rename_step(translate, method, params) {
            Err(_) => Seq::empty(),
            Ok(m) => if equivalents.contains_key(dotted(m)) {
                seq![dotted(m)] + renamed_names(
                    translate,
                    equivalents,
                    equivalents[dotted(m)],
                    m.params,
                    (fuel - 1) as nat,
                )
            } else {
                Seq::empty()
            },
        }
    }
}

/// Each renamed name has a rule; where `fuel` rounds do not end the
/// renaming, each of them renamed a name.
proof fn lemma_renamed_names(
    translate: Set<Seq<char>>,
    equivalents: Map<Seq<char>, Seq<char>>,
    method: Seq<char>,
    params: Option<JsonModel>,
    fuel: nat,
)
    ensures
        forall|i: int|
            0 <= i < renamed_names(translate, equivalents, method, params, fuel).len()
                ==> equivalents.contains_key(
                #[trigger] renamed_names(translate, equivalents, method, params, fuel)[i],
            ),
        rename_within(translate, equivalents, method, params, fuel) is None ==> renamed_names(
            translate,
            equivalents,
            method,
            params,
            fuel,
        ).len() == fuel,
    decreases fuel,
{
    if fuel > 0 {
        match rename_step(translate, method, params) {
            Err(_) => {},
            Ok(m) => {
                if equivalents.contains_key(dotted(m)) {
                    let next = equivalents[dotted(m)];
                    lemma_renamed_names(translate, equivalents, next, m.params, (fuel - 1) as nat);
                    let rest = renamed_names(translate, equivalents, next, m.params, (fuel - 1) as nat);
                    let all = renamed_names(translate, equivalents, method, params, fuel);
                    assert(all == seq![dotted(m)] + rest);
                    assert forall|i: int| 0 < i < all.len() implies all[i] == rest[i - 1] by {}
                }
            },
        }
    }
}

/// A renaming that renames no name twice ends within one round more than
/// there are rules, with the answer of the unbounded renaming.
pub proof fn lemma_acyclic_rename_ends(cfg: &AppConfig, method: Seq<char>, params: Option<JsonModel>)
    requires
        renamed_names(
            cfg.translate_to_appbase@,
            cfg.equivalent_methods@,
            method,
            params,
            (cfg.equivalent_methods@.dom().len() + 1) as nat,
        ).no_duplicates(),
    ensures
        rename_within(
            cfg.translate_to_appbase@,
            cfg.equivalent_methods@,
            method,
            params,
            (cfg.equivalent_methods@.dom().len() + 1) as nat,
        ) is Some,
        rename_terminates(cfg, method, params),
        renamed(cfg, method, params) == rename_within(
            cfg.translate_to_appbase@,
            cfg.equivalent_methods@,
            method,
            params,
            (cfg.equivalent_methods@.dom().len() + 1) as nat,
        )->0,
{
    let t = cfg.translate_to_appbase@;
    let e = cfg.equivalent_methods@;
    let fuel = (e.dom().len() + 1) as nat;
    let names = renamed_names(t, e, method, params, fuel);
    cfg.equivalent_methods.lemma_finite();
    lemma_renamed_names(t, e, method, params, fuel);
    if rename_within(t, e, method, params, fuel) is None {
        names.unique_seq_to_set();
        assert(names.to_set().subset_of(e.dom()));
        lemma_len_subset(names.to_set(), e.dom());
        assert(false);
    }
    lemma_bounded_rename_agrees(cfg, method, params, fuel);
}

/// Translation to `condenser_api` always succeeds: the method stays, the
/// namespace becomes `appbase`, the api `condenser_api`, and the
/// parameters are kept (an empty array where there were none).
pub proof fn lemma_translate_to_appbase(m: MethodModel)
    ensures
        translate_spec(m) == Ok::<MethodModel, Seq<char>>(
            MethodModel {
                namespace: "appbase"@,
                api: Some("condenser_api"@),
                method: m.method,
                params: Some(
                    match m.params {
                        Some(p) => p,
                        None => JsonModel::Array(Seq::empty()),
                    },
                ),
                full_method: "condenser_api"@ + seq!['.'] + m.method,
            },
        ),
{
}

/// Parsing a method name other than `call` hands the parameters on as
/// they were given, and keeps the name as the full method.
pub proof fn lemma_parsing_keeps_params(full: Seq<char>, params: Option<JsonModel>)
    requires
        full != "call"@,
    ensures
        convert_spec(full, params) matches Ok(m) ==> m.params == params && m.full_method == full,
{
    let parts = split_dots(full);
    lemma_join_split(full);
    if parts.len() == 1 {
        assert(join_dots(parts) == parts[0]);
    }
}

/// A name without dots (other than `call`) is a `database_api` method of
/// the `hived` namespace; a name of more than three dot-separated parts is
/// refused.
pub proof fn lemma_name_shapes(full: Seq<char>, params: Option<JsonModel>)
    ensures
        dot_free(full) && full != "call"@ ==> convert_spec(full, params) == Ok::<MethodModel, Seq<char>>(
            MethodModel {
                namespace: "hived"@,
                api: Some("database_api"@),
                method: full,
                params,
                full_method: full,
            },
        ),
        split_dots(full).len() > 3 ==> convert_spec(full, params) is Err,
{
    if dot_free(full) {
        lemma_split_dot_free(full);
    }
}

/// An api given by name is that name; by number, 0 is `database_api` and
/// 1 is `login_api`.
pub proof fn lemma_decode_api(api: JsonModel)
    ensures
        api matches JsonModel::Str(name) ==> decode_api_spec(api) == Ok::<Seq<char>, Seq<char>>(name),
        api.as_i64() == Some(0i64) ==> decode_api_spec(api) == Ok::<Seq<char>, Seq<char>>(
            "database_api"@,
        ),
        api.as_i64() == Some(1i64) ==> decode_api_spec(api) == Ok::<Seq<char>, Seq<char>>(
            "login_api"@,
        ),
{
}

/// A `call` of `[api, method, params]`: the call is in the `appbase`
/// namespace where the api is named `condenser_api` or `jsonrpc` or the
/// parameters are an object, and in `hived` otherwise (an array of
/// parameters, empty or not, included); the api, the method and the
/// parameters are handed on as given.
pub proof fn lemma_call_with_params(api: JsonModel, method: Seq<char>, p: JsonModel)
    requires
        decode_api_spec(api) is Ok,
    ensures
        call_spec(Some(JsonModel::Array(seq![api, JsonModel::Str(method), p]))) matches Ok(m) && m.namespace
            == (if api == JsonModel::Str("condenser_api"@) || api == JsonModel::Str("jsonrpc"@)
            || p is Object {
            "appbase"@
        } else {
            "hived"@
        }) && m.api == Some(decode_api_spec(api)->Ok_0) && m.method == method && m.params == Some(p)
            && m.full_method == decode_api_spec(api)->Ok_0 + seq!['.'] + method,
{
}

/// A `call` of `[api, method]` is in the `appbase` namespace and has no
/// parameters.
pub proof fn lemma_call_without_params(api: JsonModel, method: Seq<char>)
    requires
        decode_api_spec(api) is Ok,
    ensures
        call_spec(Some(JsonModel::Array(seq![api, JsonModel::Str(method)]))) matches Ok(m) && m.namespace
            == "appbase"@ && m.api == Some(decode_api_spec(api)->Ok_0) && m.method == method
            && m.params is None && m.full_method == decode_api_spec(api)->Ok_0 + seq!['.'] + method,
{
}

/// The call in the `condenser_api` form: namespace `appbase`, api
/// `condenser_api`, the same method, and the parameters (an empty array
/// where there were none).
pub open spec fn condenser_form(m: MethodModel) -> MethodModel {
    MethodModel {
        namespace: "appbase"@,
        api: Some("condenser_api"@),
        method: m.method,
        params: Some(
            match m.params {
                Some(p) => p,
                None => JsonModel::Array(Seq::empty()),
            },
        ),
        full_method: "condenser_api"@ + seq!['.'] + m.method,
    }
}

/// Each round translates a call whose parsed namespace is marked to the
/// `condenser_api` form, whatever form its name was written in (a bare
/// name, `namespace.api.method`, or `call`), and leaves any other call as
/// parsed.
pub proof fn lemma_marked_namespace_translated(
    translate: Set<Seq<char>>,
    method: Seq<char>,
    params: Option<JsonModel>,
    m: MethodModel,
)
    requires
        convert_spec(method, params) == Ok::<MethodModel, Seq<char>>(m),
    ensures
        translate.contains(m.namespace) ==> rename_step(translate, method, params) == Ok::<
            MethodModel,
            Seq<char>,
        >(condenser_form(m)),
        !translate.contains(m.namespace) ==> rename_step(translate, method, params) == Ok::<
            MethodModel,
            Seq<char>,
        >(m),
{
    lemma_translate_to_appbase(m);
}

/// A call in a marked namespace is answered in the `condenser_api` form
/// where no rule renames that form.
pub proof fn lemma_marked_call_answer(cfg: &AppConfig, method: Seq<char>, params: Option<JsonModel>, m: MethodModel)
    requires
        convert_spec(method, params) == Ok::<MethodModel, Seq<char>>(m),
        cfg.translate_to_appbase@.contains(m.namespace),
        !cfg.equivalent_methods@.contains_key(dotted(condenser_form(m))),
    ensures
        rename_terminates(cfg, method, params),
        renamed(cfg, method, params) == Ok::<MethodModel, Seq<char>>(condenser_form(m)),
{
    lemma_marked_namespace_translated(cfg.translate_to_appbase@, method, params, m);
    lemma_bounded_rename_agrees(cfg, method, params, 1);
}

/// A name of namespace and method (no api) is routed under its own name:
/// its dotted name is the name that was called.
pub proof fn lemma_two_part_name_kept(full: Seq<char>, params: Option<JsonModel>)
    requires
        convert_spec(full, params) matches Ok(m) && m.api is None,
    ensures
        dotted(convert_spec(full, params)->Ok_0) == full,
{
    let m = convert_spec(full, params)->Ok_0;
    let parts = split_dots(full);
    lemma_split_dots_nonempty(full);
    lemma_join_split(full);
    lemma_dotted_is_joined_parts(m);
    assert(parts.len() == 2);
    assert(name_parts(m) =~= parts);
}

/// A name of three dot-separated parts is routed under its own name: its
/// dotted name is the name that was called.
pub proof fn lemma_three_part_name_kept(full: Seq<char>, params: Option<JsonModel>)
    requires
        split_dots(full).len() == 3,
    ensures
        convert_spec(full, params) is Ok,
        dotted(convert_spec(full, params)->Ok_0) == full,
{
    let m = convert_spec(full, params)->Ok_0;
    let parts = split_dots(full);
    lemma_join_split(full);
    lemma_dotted_is_joined_parts(m);
    assert(name_parts(m) =~= parts);
}

/// Calling `call` with `[api, method]` is routed as calling `api.method`
/// directly, for an api named `*_api` or `jsonrpc` and names without dots.
pub proof fn lemma_call_is_direct_call(api: Seq<char>, method: Seq<char>)
    requires
        has_suffix(api, "_api"@) || api == "jsonrpc"@,
        dot_free(api),
        dot_free(method),
    ensures
        convert_spec("call"@, Some(JsonModel::Array(seq![JsonModel::Str(api), JsonModel::Str(method)])))
            == convert_spec(api + seq!['.'] + method, None),
{
    reveal_strlit("call");
    lemma_split_dot_free("call"@);
    lemma_split_dot_free(api);
    lemma_split_append_piece(api, method);
    assert(seq![api].push(method) =~= seq![api, method]);
}

/// The routing rules with `fuel` rounds at most.
fn map_method_name_with_fuel(
    app_config: &AppConfig,
    method: &str,
    params: &Option<JsonValue>,
    Ghost(fuel): Ghost<nat>,
) -> (r: Result<MethodAndParams, String>)
    requires
        rename_within(
            app_config.translate_to_appbase@,
            app_config.equivalent_methods@,
            method@,
            opt_json_view(*params),
            fuel,
        ) is Some,
    ensures
        Some(parsed_view(r)) == rename_within(
            app_config.translate_to_appbase@,
            app_config.equivalent_methods@,
            method@,
            opt_json_view(*params),
            fuel,
        ),
    decreases fuel,
{
    let mut mapped = match convert_method_name(method, params) {
        Ok(m) => m,
        Err(e) => {
            return Err(e);
        },
    };
    if app_config.translate_to_appbase.contains(mapped.namespace.as_str()) {
        mapped = match translate_to_appbase(mapped) {
            Ok(m) => m,
            Err(e) => {
                return Err(e);
            },
        };
    }
    let dotted_name = mapped.get_dotted_method_name();
    match app_config.equivalent_methods.get(dotted_name.as_str()) {
        Some(new_method_name) => map_method_name_with_fuel(
            app_config,
            new_method_name.as_str(),
            &mapped.params,
            Ghost((fuel - 1) as nat),
        ),
        None => Ok(mapped),
    }
}

/// the main method in this module, this:
/// - parses the request, figuring out what "namespace", "api", and "method" the call represents
/// - where the namespace is one the configuration marks, converts the call to the "appbase"
///   namespace and "condenser_api"
/// - does any method renaming requested by the "equivalent_methods" config, starting over on
///   the new name
///
/// The renaming must end: a rule that renames a method to itself would go
/// on for ever.
pub fn map_method_name(app_config: &AppConfig, method: &str, params: &Option<JsonValue>) -> (r: Result<
    MethodAndParams,
    String,
>)
    requires
        rename_terminates(app_config, method@, opt_json_view(*params)),
    ensures
        parsed_view(r) == renamed(app_config, method@, opt_json_view(*params)),
{
    let ghost n = choose|n: nat|
        #[trigger] rename_within(
            app_config.translate_to_appbase@,
            app_config.equivalent_methods@,
            method@,
            opt_json_view(*params),
            n,
        ) is Some;
    map_method_name_with_fuel(app_config, method, params, Ghost(n))
}

/// `map_method_name` with at most `max_rounds` rounds of renaming: `None`
/// where the renaming has not ended by then.
pub fn map_method_name_within(
    app_config: &AppConfig,
    method: &str,
    params: &Option<JsonValue>,
    max_rounds: u64,
) -> (r: Option<Result<MethodAndParams, String>>)
    ensures
        r is Some <==> rename_within(
            app_config.translate_to_appbase@,
            app_config.equivalent_methods@,
            method@,
            opt_json_view(*params),
            max_rounds as nat,
        ) is Some,
        r matches Some(res) ==> Some(parsed_view(res)) == rename_within(
            app_config.translate_to_appbase@,
            app_config.equivalent_methods@,
            method@,
            opt_json_view(*params),
            max_rounds as nat,
        ),
    decreases max_rounds,
{
    if max_rounds == 0 {
        return None;
    }
    let mut mapped = match convert_method_name(method, params) {
        Ok(m) => m,
        Err(e) => {
            return Some(Err(e));
        },
    };
    if app_config.translate_to_appbase.contains(mapped.namespace.as_str()) {
        mapped = match translate_to_appbase(mapped) {
            Ok(m) => m,
            Err(e) => {
                return Some(Err(e));
            },
        };
    }
    let dotted_name = mapped.get_dotted_method_name();
    match app_config.equivalent_methods.get(dotted_name.as_str()) {
        Some(new_method_name) => map_method_name_within(
            app_config,
            new_method_name.as_str(),
            &mapped.params,
            max_rounds - 1,
        ),
        None => Some(Ok(mapped)),
    }
}

} // verus!
