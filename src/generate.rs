//! Assembling the document: the component tables, the paths, the tags, and the
//! one info block selected and resolved along its inheritance chain.
use vstd::prelude::*;
use crate::convert::{
    attributes_spec, content_spec, convert_attributes, convert_content, convert_enum,
    convert_path, convert_request_body, convert_response, enum_spec, kinds_known,
    path_kinds_known, path_spec, request_body_spec, response_spec,
};
use crate::data;
use crate::data::Object;
use crate::table::{lemma_table_set, set_entry, table_set, table_view};
use crate::openapi::{
    document_view, info_view, opt_view, path_fn, path_table_view, request_body_ref_fn,
    request_body_table_view, response_fn, response_table_view, schema_ref_fn, schema_table_view,
    tag_view, tags_view, Components, ComponentsView, Info, InfoView, OpenApi, OpenApiView, Path,
    Paths, RefView, ReferenceOr, RequestBody, RequestBodyView, Response, ResponseView, Schema,
    SchemaView, Tag, TagView,
};

verus! {

/// The info blocks of a compilation unit, in order, and the name of the last
/// one marked `default`.
pub struct InfoConfig {
    pub info: Vec<data::Info>,
    pub default: Option<String>,
}

/// Why a document could not be produced.
#[derive(Debug)]
pub enum ConvertError {
    /// No configuration was asked for and no info block is marked `default`.
    NoConfig,
    /// No info block has the configuration name asked for.
    UnknownConfig(String),
    /// An info block names a base that no info block has.
    UnknownBase(String),
    /// An inheritance chain comes back to a block it has passed.
    CyclicBase(String),
    /// The resolved info has no title.
    MissingTitle,
    /// The resolved info has no version.
    MissingVersion,
    /// A parameter has no kind, and nothing around it supplies one.
    UnknownParameterKind(String),
}

pub enum ConvertErrorView {
    NoConfig,
    UnknownConfig(Seq<char>),
    UnknownBase(Seq<char>),
    CyclicBase(Seq<char>),
    MissingTitle,
    MissingVersion,
    UnknownParameterKind,
}

pub open spec fn error_view(e: ConvertError) -> ConvertErrorView {
    match e {
        ConvertError::NoConfig => ConvertErrorView::NoConfig,
        ConvertError::UnknownConfig(n) => ConvertErrorView::UnknownConfig(n@),
        ConvertError::UnknownBase(n) => ConvertErrorView::UnknownBase(n@),
        ConvertError::CyclicBase(n) => ConvertErrorView::CyclicBase(n@),
        ConvertError::MissingTitle => ConvertErrorView::MissingTitle,
        ConvertError::MissingVersion => ConvertErrorView::MissingVersion,
        ConvertError::UnknownParameterKind(_) => ConvertErrorView::UnknownParameterKind,
    }
}

/// The inheritable fields of an info block.
pub struct InfoFields {
    pub title: Option<Seq<char>>,
    pub summary: Option<Seq<char>>,
    pub description: Option<Seq<char>>,
    pub terms_of_service: Option<Seq<char>>,
    pub version: Option<Seq<char>>,
}

pub open spec fn own_fields(i: data::Info) -> InfoFields {
    InfoFields {
        title: opt_view(i.title),
        summary: opt_view(i.summary),
        description: opt_view(i.description),
        terms_of_service: opt_view(i.terms_of_service),
        version: opt_view(i.version),
    }
}

pub open spec fn or_else(a: Option<Seq<char>>, b: Option<Seq<char>>) -> Option<Seq<char>> {
    match a {
        Some(_) => a,
        None => b,
    }
}

/// Each field of `child` where it has one, else that of `base`.
pub open spec fn overlay(child: InfoFields, base: InfoFields) -> InfoFields {
    InfoFields {
        title: or_else(child.title, base.title),
        summary: or_else(child.summary, base.summary),
        description: or_else(child.description, base.description),
        terms_of_service: or_else(child.terms_of_service, base.terms_of_service),
        version: or_else(child.version, base.version),
    }
}

/// The index of the block named `name`; of the last one where several are.
pub open spec fn find_info(infos: Seq<data::Info>, name: Seq<char>) -> Option<int>
    decreases infos.len(),
{
    if infos.len() == 0 {
        None
    } else if infos.last().config_name@ == name {
        Some(infos.len() - 1)
    } else {
        find_info(infos.drop_last(), name)
    }
}

/// The fields of `cur` after inheritance: a block without a base has its own
/// fields; one with a base takes each field it lacks from its resolved base.
/// A chain that takes more steps than `fuel` is cyclic.
pub open spec fn merged_info(infos: Seq<data::Info>, cur: data::Info, fuel: nat) -> Result<
    InfoFields,
    ConvertErrorView,
>
    decreases fuel,
{
    match cur.base {
        None => Ok(own_fields(cur)),
        Some(b) => if fuel == 0 {
            Err(ConvertErrorView::CyclicBase(b@))
        } else {
            match find_info(infos, b@) {
                None => Err(ConvertErrorView::UnknownBase(b@)),
                Some(j) => match merged_info(infos, infos[j], (fuel - 1) as nat) {
                    Ok(f) => Ok(overlay(own_fields(cur), f)),
                    Err(e) => Err(e),
                },
            }
        },
    }
}

/// The document's info: the block asked for, else the default one, resolved
/// along its chain; title and version are required.  Chains may take as many
/// steps as there are blocks, which no acyclic chain exceeds.
pub open spec fn resolve_spec(
    infos: Seq<data::Info>,
    default: Option<Seq<char>>,
    requested: Option<Seq<char>>,
) -> Result<InfoView, ConvertErrorView> {
    let name = match requested {
        Some(n) => Some(n),
        None => default,
    };
    match name {
        None => Err(ConvertErrorView::NoConfig),
        Some(name) => match find_info(infos, name) {
            None => Err(ConvertErrorView::UnknownConfig(name)),
            Some(i) => match merged_info(infos, infos[i], infos.len()) {
                Err(e) => Err(e),
                Ok(f) => match (f.title, f.version) {
                    (None, _) => Err(ConvertErrorView::MissingTitle),
                    (Some(_), None) => Err(ConvertErrorView::MissingVersion),
                    (Some(t), Some(v)) => Ok(
                        InfoView {
                            title: t,
                            version: v,
                            description: f.description,
                            terms_of_service: f.terms_of_service,
                        },
                    ),
                },
            },
        },
    }
}

pub proof fn lemma_find_info_bounds(infos: Seq<data::Info>, name: Seq<char>)
    ensures
        find_info(infos, name) matches Some(j) ==> 0 <= j < infos.len() && infos[j].config_name@
            == name,
    decreases infos.len(),
{
    if infos.len() > 0 && infos.last().config_name@ != name {
        lemma_find_info_bounds(infos.drop_last(), name);
    }
}

fn find_info_index(infos: &Vec<data::Info>, name: &String) -> (r: Option<usize>)
    ensures
        match find_info(infos@, name@) {
            Some(j) => r matches Some(k) && k as int == j && 0 <= j < infos@.len(),
            None => r is None,
        },
{
    proof {
        lemma_find_info_bounds(infos@, name@);
    }
    let mut k = infos.len();
    assert(infos@.subrange(0, k as int) =~= infos@);
    while k > 0
        invariant
            k <= infos@.len(),
            find_info(infos@, name@) == find_info(infos@.subrange(0, k as int), name@),
        decreases k,
    {
        assert(infos@.subrange(0, k as int).drop_last() =~= infos@.subrange(0, k - 1));
        if infos[k - 1].config_name.eq(name) {
            return Some(k - 1);
        }
        k -= 1;
    }
    None
}

fn clone_opt(o: &Option<String>) -> (r: Option<String>)
    ensures
        opt_view(r) == opt_view(*o),
{
    match o {
        Some(s) => Some(s.clone()),
        None => None,
    }
}

fn or_else_exec(a: Option<String>, b: Option<String>) -> (r: Option<String>)
    ensures
        opt_view(r) == or_else(opt_view(a), opt_view(b)),
{
    match a {
        Some(_) => a,
        None => b,
    }
}

/// Resolves the fields of `info` along its base chain, taking at most `fuel`
/// steps.  The result carries the merged fields and no base.
pub fn extends_info(info_config: &InfoConfig, info: &data::Info, fuel: usize) -> (r: Result<
    data::Info,
    ConvertError,
>)
    ensures
        match merged_info(info_config.info@, *info, fuel as nat) {
            Ok(f) => r matches Ok(i) && own_fields(i) == f,
            Err(e) => r matches Err(x) && error_view(x) == e,
        },
        info.base is None ==> (r matches Ok(i) && i.is_default == info.is_default
            && i.config_name@ == info.config_name@ && i.base is None),
    decreases fuel,
{
    let ghost infos = info_config.info@;
    match &info.base {
        None => {
            let r = data::Info {
                is_default: info.is_default,
                config_name: info.config_name.clone(),
                title: clone_opt(&info.title),
                summary: clone_opt(&info.summary),
                description: clone_opt(&info.description),
                terms_of_service: clone_opt(&info.terms_of_service),
                version: clone_opt(&info.version),
                base: None,
            };
            assert(own_fields(r) == own_fields(*info));
            assert(merged_info(infos, *info, fuel as nat) == Ok::<InfoFields, ConvertErrorView>(own_fields(*info)));
            Ok(r)
        },
        Some(b) => {
            if fuel == 0 {
                return Err(ConvertError::CyclicBase(b.clone()));
            }
            let j = match find_info_index(&info_config.info, b) {
                Some(j) => j,
                None => return Err(ConvertError::UnknownBase(b.clone())),
            };
            assert(find_info(infos, b@) == Some(j as int));
            let base = match extends_info(info_config, &info_config.info[j], fuel - 1) {
                Ok(base) => base,
                Err(e) => {
                    assert(merged_info(infos, infos[j as int], (fuel - 1) as nat) == Err::<InfoFields, ConvertErrorView>(error_view(e)));
                    return Err(e);
                },
            };
            let data::Info { title, summary, description, terms_of_service, version, .. } = base;
            Ok(
                data::Info {
                    is_default: true,
                    config_name: String::new(),
                    title: or_else_exec(clone_opt(&info.title), title),
                    summary: or_else_exec(clone_opt(&info.summary), summary),
                    description: or_else_exec(clone_opt(&info.description), description),
                    terms_of_service: or_else_exec(
                        clone_opt(&info.terms_of_service),
                        terms_of_service,
                    ),
                    version: or_else_exec(clone_opt(&info.version), version),
                    base: None,
                },
            )
        },
    }
}

/// The document's info block: the configuration asked for, or else the one
/// marked `default`, resolved along its inheritance chain.
pub fn resolve_info(info_config: &InfoConfig, config: Option<String>) -> (r: Result<
    Info,
    ConvertError,
>)
    ensures
        match resolve_spec(info_config.info@, opt_view(info_config.default), opt_view(config)) {
            Ok(v) => r matches Ok(i) && info_view(i) == v,
            Err(e) => r matches Err(x) && error_view(x) == e,
        },
{
    let name = match config {
        Some(n) => n,
        None => match &info_config.default {
            Some(d) => d.clone(),
            None => return Err(ConvertError::NoConfig),
        },
    };
    let i = match find_info_index(&info_config.info, &name) {
        Some(i) => i,
        None => return Err(ConvertError::UnknownConfig(name)),
    };
    let merged = match extends_info(info_config, &info_config.info[i], info_config.info.len()) {
        Ok(m) => m,
        Err(e) => return Err(e),
    };
    let data::Info { title, description, terms_of_service, version, .. } = merged;
    match (title, version) {
        (None, _) => Err(ConvertError::MissingTitle),
        (Some(_), None) => Err(ConvertError::MissingVersion),
        (Some(title), Some(version)) => Ok(Info { title, version, description, terms_of_service }),
    }
}

// ---- the tables ----

/// The schema table: named schemas and enums; a later definition of a name
/// replaces an earlier one.
pub open spec fn schemas_spec(objs: Seq<Object>) -> Seq<(Seq<char>, RefView<SchemaView>)>
    decreases objs.len(),
{
    if objs.len() == 0 {
        Seq::empty()
    } else {
        let prev = schemas_spec(objs.drop_last());
        match objs.last() {
            Object::Schema(s) => match s.name {
                Some(n) => table_set(prev, n@, content_spec(s.content)),
                None => prev,
            },
            Object::Enum(e) => table_set(prev, e.name@, enum_spec(e.content)),
            _ => prev,
        }
    }
}

/// The response table; a later response of the same name replaces an earlier
/// one.  A header without a kind of its own has none here.
pub open spec fn responses_spec(objs: Seq<Object>) -> Seq<(Seq<char>, ResponseView)>
    decreases objs.len(),
{
    if objs.len() == 0 {
        Seq::empty()
    } else {
        let prev = responses_spec(objs.drop_last());
        match objs.last() {
            Object::Response(r) => table_set(prev, r.name@, response_spec(r.content, None)),
            _ => prev,
        }
    }
}

pub open spec fn request_bodies_spec(objs: Seq<Object>) -> Seq<(Seq<char>, RefView<RequestBodyView>)>
    decreases objs.len(),
{
    if objs.len() == 0 {
        Seq::empty()
    } else {
        let prev = request_bodies_spec(objs.drop_last());
        match objs.last() {
            Object::RequestBody(b) => table_set(
                prev,
                b.name@,
                RefView::Value(request_body_spec(b.content)),
            ),
            _ => prev,
        }
    }
}

pub open spec fn tags_spec(objs: Seq<Object>) -> Seq<TagView>
    decreases objs.len(),
{
    if objs.len() == 0 {
        Seq::empty()
    } else {
        let prev = tags_spec(objs.drop_last());
        match objs.last() {
            Object::Tag(t) => prev.push(TagView { name: t.name@, attributes: attributes_spec(t.attributes@) }),
            _ => prev,
        }
    }
}

/// The paths, keyed by their route templates; a later path with the same
/// template replaces an earlier one.
pub open spec fn paths_spec(objs: Seq<Object>) -> Seq<(Seq<char>, crate::openapi::PathView)>
    decreases objs.len(),
{
    if objs.len() == 0 {
        Seq::empty()
    } else {
        let prev = paths_spec(objs.drop_last());
        match objs.last() {
            Object::Path(p) => table_set(prev, p.name@, path_spec(p)),
            _ => prev,
        }
    }
}

pub open spec fn infos_of(objs: Seq<Object>) -> Seq<data::Info>
    decreases objs.len(),
{
    if objs.len() == 0 {
        Seq::empty()
    } else {
        let prev = infos_of(objs.drop_last());
        match objs.last() {
            Object::Info(i) => prev.push(i),
            _ => prev,
        }
    }
}

/// The configuration name of the last info block marked `default`.
pub open spec fn default_of(objs: Seq<Object>) -> Option<Seq<char>>
    decreases objs.len(),
{
    if objs.len() == 0 {
        None
    } else {
        match objs.last() {
            Object::Info(i) => if i.is_default {
                Some(i.config_name@)
            } else {
                default_of(objs.drop_last())
            },
            _ => default_of(objs.drop_last()),
        }
    }
}

/// Every parameter that conversion meets has a kind: those of paths and
/// operations, and the headers of named responses.
pub open spec fn objects_kinds_known(objs: Seq<Object>) -> bool {
    forall|x: int|
        0 <= x < objs.len() ==> match #[trigger] objs[x] {
            Object::Path(p) => path_kinds_known(p),
            Object::Response(r) => kinds_known(r.content.headers.parameters@, None),
            _ => true,
        }
}

/// What converting a list of objects yields.
pub open spec fn generation_spec(objs: Seq<Object>, config: Option<Seq<char>>) -> Result<
    OpenApiView,
    ConvertErrorView,
> {
    if !objects_kinds_known(objs) {
        Err(ConvertErrorView::UnknownParameterKind)
    } else {
        match resolve_spec(infos_of(objs), default_of(objs), config) {
            Err(e) => Err(e),
            Ok(info) => Ok(
                OpenApiView {
                    openapi: "3.1.0"@,
                    info,
                    paths: paths_spec(objs),
                    components: ComponentsView {
                        schemas: schemas_spec(objs),
                        responses: responses_spec(objs),
                        request_bodies: request_bodies_spec(objs),
                        parameters: Seq::empty(),
                        headers: Seq::empty(),
                    },
                    tags: tags_spec(objs),
                    servers: Seq::empty(),
                },
            ),
        }
    }
}

pub open spec fn result_view(r: Result<OpenApi, ConvertError>) -> Result<OpenApiView, ConvertErrorView> {
    match r {
        Ok(d) => Ok(document_view(d)),
        Err(e) => Err(error_view(e)),
    }
}

// ---- checking parameter kinds ----

fn first_unknown(ps: &Vec<data::Parameter>) -> (r: Option<String>)
    ensures
        r is None <==> kinds_known(ps@, None),
{
    let mut k: usize = 0;
    while k < ps.len()
        invariant
            k <= ps@.len(),
            forall|x: int| 0 <= x < k ==> (#[trigger] ps@[x]).ty is Some,
        decreases ps@.len() - k,
    {
        if ps[k].ty.is_none() {
            assert(crate::convert::kind_of(ps@[k as int], None) is None);
            return Some(ps[k].name.clone());
        }
        k += 1;
    }
    assert forall|x: int| 0 <= x < ps@.len() implies (#[trigger] crate::convert::kind_of(
        ps@[x],
        None,
    )) is Some by {
        assert(ps@[x].ty is Some);
    }
    None
}

fn first_unknown_in_operation(o: &Option<data::Operation>) -> (r: Option<String>)
    ensures
        r is None <==> crate::convert::operation_kinds_known(*o),
{
    match o {
        Some(op) => first_unknown(&op.parameters.parameters),
        None => None,
    }
}

fn first_unknown_in_path(p: &data::Path) -> (r: Option<String>)
    ensures
        r is None <==> path_kinds_known(*p),
{
    let c = &p.content;
    if let Some(n) = first_unknown(&c.parameters.parameters) {
        return Some(n);
    }
    if let Some(n) = first_unknown_in_operation(&c.get) {
        return Some(n);
    }
    if let Some(n) = first_unknown_in_operation(&c.post) {
        return Some(n);
    }
    if let Some(n) = first_unknown_in_operation(&c.put) {
        return Some(n);
    }
    if let Some(n) = first_unknown_in_operation(&c.delete) {
        return Some(n);
    }
    if let Some(n) = first_unknown_in_operation(&c.options) {
        return Some(n);
    }
    if let Some(n) = first_unknown_in_operation(&c.head) {
        return Some(n);
    }
    if let Some(n) = first_unknown_in_operation(&c.patch) {
        return Some(n);
    }
    first_unknown_in_operation(&c.trace)
}

/// The name of a parameter that has no kind and no context to take one from,
/// if there is one.
pub fn find_unknown_parameter(objs: &Vec<Object>) -> (r: Option<String>)
    ensures
        r is None <==> objects_kinds_known(objs@),
{
    let mut k: usize = 0;
    while k < objs.len()
        invariant
            k <= objs@.len(),
            forall|x: int|
                0 <= x < k ==> match #[trigger] objs@[x] {
                    Object::Path(p) => path_kinds_known(p),
                    Object::Response(r) => kinds_known(r.content.headers.parameters@, None),
                    _ => true,
                },
        decreases objs@.len() - k,
    {
        match &objs[k] {
            Object::Path(p) => {
                if let Some(n) = first_unknown_in_path(p) {
                    return Some(n);
                }
            },
            Object::Response(r) => {
                if let Some(n) = first_unknown(&r.content.headers.parameters) {
                    return Some(n);
                }
            },
            _ => {},
        }
        k += 1;
    }
    None
}

/// Converts the objects of a compilation unit, in order, into a document whose
/// info is the block named by `config`, or else the one marked `default`.
pub fn generate(objects: Vec<Object>, config: Option<String>) -> (r: Result<OpenApi, ConvertError>)
    ensures
        result_view(r) == generation_spec(objects@, opt_view(config)),
{
    if let Some(n) = find_unknown_parameter(&objects) {
        return Err(ConvertError::UnknownParameterKind(n));
    }
    let ghost all = objects@;
    let mut rest = objects;
    let n = rest.len();
    let mut schemas: Vec<(String, ReferenceOr<Schema>)> = Vec::new();
    let mut responses: Vec<(String, Response)> = Vec::new();
    let mut request_bodies: Vec<(String, ReferenceOr<RequestBody>)> = Vec::new();
    let mut tags: Vec<Tag> = Vec::new();
    let mut paths: Vec<(String, Path)> = Vec::new();
    let mut infos: Vec<data::Info> = Vec::new();
    let mut default: Option<String> = None;
    let mut k: usize = 0;
    assert(table_view(schemas@, schema_ref_fn()) =~= Seq::empty());
    assert(table_view(responses@, response_fn()) =~= Seq::empty());
    assert(table_view(request_bodies@, request_body_ref_fn()) =~= Seq::empty());
    assert(table_view(paths@, path_fn()) =~= Seq::empty());
    while k < n
        invariant
            n == all.len(),
            k <= n,
            rest@ == all.subrange(k as int, n as int),
            objects_kinds_known(all),
            schema_table_view(schemas@) == schemas_spec(all.subrange(0, k as int)),
            response_table_view(responses@) == responses_spec(all.subrange(0, k as int)),
            request_body_table_view(request_bodies@) == request_bodies_spec(
                all.subrange(0, k as int),
            ),
            tags_view(tags@) == tags_spec(all.subrange(0, k as int)),
            path_table_view(paths@) == paths_spec(all.subrange(0, k as int)),
            infos@ == infos_of(all.subrange(0, k as int)),
            opt_view(default) == default_of(all.subrange(0, k as int)),
        decreases n - k,
    {
        let o = rest.remove(0);
        let ghost sub = all.subrange(0, k + 1);
        assert(all[k as int] == o);
        assert(sub.drop_last() =~= all.subrange(0, k as int));
        assert(sub.last() == o);
        let ghost s0 = schemas@;
        let ghost r0 = responses@;
        let ghost b0 = request_bodies@;
        let ghost t0 = tags@;
        let ghost p0 = paths@;
        match o {
            Object::Schema(s) => {
                let data::Schema { name, content } = s;
                if let Some(name) = name {
                    let v = convert_content(content);
                    proof {
                        lemma_table_set(s0, name, v, schema_ref_fn());
                    }
                    set_entry(&mut schemas, name, v);
                }
            },
            Object::Enum(e) => {
                let data::Enum { name, content } = e;
                let v = convert_enum(content);
                proof {
                    lemma_table_set(s0, name, v, schema_ref_fn());
                }
                set_entry(&mut schemas, name, v);
            },
            Object::Tag(t) => {
                let data::Tag { name, attributes } = t;
                tags.push(Tag { name, attributes: convert_attributes(attributes) });
            },
            Object::Response(r) => {
                let data::Response { name, content } = r;
                let v = convert_response(content, None);
                proof {
                    lemma_table_set(r0, name, v, response_fn());
                }
                set_entry(&mut responses, name, v);
            },
            Object::RequestBody(b) => {
                let data::RequestBody { name, content } = b;
                let v = ReferenceOr::Value(convert_request_body(content));
                proof {
                    lemma_table_set(b0, name, v, request_body_ref_fn());
                }
                set_entry(&mut request_bodies, name, v);
            },
            Object::Path(p) => {
                let name = p.name.clone();
                let v = convert_path(p);
                proof {
                    lemma_table_set(p0, name, v, path_fn());
                }
                set_entry(&mut paths, name, v);
            },
            Object::Info(i) => {
                if i.is_default {
                    default = Some(i.config_name.clone());
                }
                infos.push(i);
            },
        }
        proof {
            if tags@.len() > t0.len() {
                assert(tags_view(tags@) =~= tags_view(t0).push(tag_view(tags@.last())));
            } else {
                assert(tags@ == t0);
            }
        }
        k += 1;
        assert(rest@ =~= all.subrange(k as int, n as int));
    }
    assert(all.subrange(0, n as int) =~= all);
    let info_config = InfoConfig { info: infos, default };
    let info = match resolve_info(&info_config, config) {
        Ok(i) => i,
        Err(e) => return Err(e),
    };
    let d = OpenApi {
        openapi: String::from_str("3.1.0"),
        info,
        servers: Vec::new(),
        paths: Paths { content: paths },
        components: Components {
            schemas,
            responses,
            parameters: Vec::new(),
            request_bodies,
            headers: Vec::new(),
        },
        tags,
    };
    assert(document_view(d).servers =~= Seq::empty());
    assert(document_view(d).components.parameters =~= Seq::empty());
    assert(document_view(d).components.headers =~= Seq::empty());
    Ok(d)
}

} // verus!
