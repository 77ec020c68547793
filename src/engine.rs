use vstd::prelude::*;
use crate::bridge::{needs_platform_layer, is_platform_marker, ExportDecl};
use crate::link::{keys_view, link, missing, requests_view, ImportRequest, LinkError, RequestView};
use crate::registry::{compatible, ImportKey, ImportTable, KeyView, SigView, Signature, ValueKind};

verus! {

#[verifier::external_type_specification]
#[verifier::external_body]
pub struct ExModule(wasmer::Module);

#[verifier::external_type_specification]
#[verifier::external_body]
pub struct ExType(wasmer::Type);

/// A value type as the guest module declares it.
#[derive(Clone, Copy, Debug, PartialEq, Eq, Structural)]
pub enum GuestKind {
    I32,
    I64,
    F32,
    F64,
    V128,
    ExternRef,
    FuncRef,
}

/// The host kind that stands for a guest kind, if the host can declare one.
pub open spec fn host_kind(g: GuestKind) -> Option<ValueKind> {
    match g {
        GuestKind::I32 => Some(ValueKind::I32),
        GuestKind::I64 => Some(ValueKind::I64),
        GuestKind::F32 => Some(ValueKind::F32),
        GuestKind::F64 => Some(ValueKind::F64),
        _ => None,
    }
}

/// Whether every kind of `ks` has a host counterpart.
pub open spec fn all_hostable(ks: Seq<GuestKind>) -> bool {
    forall|i: int| 0 <= i < ks.len() ==> (#[trigger] host_kind(ks[i])) is Some
}

/// The host counterparts of kinds that all have one.
pub open spec fn host_kinds_of(ks: Seq<GuestKind>) -> Seq<ValueKind> {
    ks.map_values(|g: GuestKind| host_kind(g)->0)
}

/// A function a module imports, with its guest signature.
pub struct FunctionImport {
    pub key: ImportKey,
    pub params: Vec<GuestKind>,
    pub results: Vec<GuestKind>,
}

/// A function a module exports, with its guest signature.
pub struct FunctionExport {
    pub name: String,
    pub params: Vec<GuestKind>,
    pub results: Vec<GuestKind>,
}

/// Relies on the variants of wasmer::Type, mapped one to one.
#[verifier::external_body]
fn guest_kind(t: &wasmer::Type) -> (r: GuestKind) {
    match t {
        wasmer::Type::I32 => GuestKind::I32,
        wasmer::Type::I64 => GuestKind::I64,
        wasmer::Type::F32 => GuestKind::F32,
        wasmer::Type::F64 => GuestKind::F64,
        wasmer::Type::V128 => GuestKind::V128,
        wasmer::Type::ExternRef => GuestKind::ExternRef,
        wasmer::Type::FuncRef => GuestKind::FuncRef,
    }
}

/// The function imports of a compiled module, as `wasmer::Module::imports` lists them.
pub uninterp spec fn function_imports_of(m: &wasmer::Module) -> Seq<ImportView>;

/// The function exports of a compiled module, as `wasmer::Module::exports` lists them.
pub uninterp spec fn function_exports_of(m: &wasmer::Module) -> Seq<ExportView>;

/// Relies on wasmer::Module::imports: the module's function imports with their
/// namespace, name and signature, in the module's order; they depend on the
/// compiled module alone.
#[verifier::external_body]
fn function_imports(module: &wasmer::Module) -> (r: Vec<FunctionImport>)
    ensures
        imports_view(r@) == function_imports_of(module),
{
    module.imports().functions().map(|i| FunctionImport {
        key: ImportKey { namespace: i.module().to_string(), name: i.name().to_string() },
        params: i.ty().params().iter().map(guest_kind).collect(),
        results: i.ty().results().iter().map(guest_kind).collect(),
    }).collect()
}

/// Relies on wasmer::Module::exports: the module's function exports with their
/// name and signature, in the module's order; they depend on the compiled
/// module alone.
#[verifier::external_body]
fn function_exports(module: &wasmer::Module) -> (r: Vec<FunctionExport>)
    ensures
        exports_view_of(r@) == function_exports_of(module),
{
    module.exports().functions().map(|e| FunctionExport {
        name: e.name().to_string(),
        params: e.ty().params().iter().map(guest_kind).collect(),
        results: e.ty().results().iter().map(guest_kind).collect(),
    }).collect()
}

/// The host counterparts of `ks`, or `None` when one kind has none.
pub fn host_kinds(ks: &Vec<GuestKind>) -> (r: Option<Vec<ValueKind>>)
    ensures
        r is Some <==> all_hostable(ks@),
        r matches Some(v) ==> v@ == host_kinds_of(ks@),
{
    let mut out: Vec<ValueKind> = Vec::new();
    let mut i: usize = 0;
    while i < ks.len()
        invariant
            i <= ks@.len(),
            forall|j: int| 0 <= j < i ==> (#[trigger] host_kind(ks@[j])) is Some,
            out@ == host_kinds_of(ks@.subrange(0, i as int)),
        decreases ks@.len() - i,
    {
        let k = match ks[i] {
            GuestKind::I32 => ValueKind::I32,
            GuestKind::I64 => ValueKind::I64,
            GuestKind::F32 => ValueKind::F32,
            GuestKind::F64 => ValueKind::F64,
            _ => {
                assert(host_kind(ks@[i as int]) is None);
                return None;
            },
        };
        out.push(k);
        i = i + 1;
        assert(out@ =~= host_kinds_of(ks@.subrange(0, i as int)));
    }
    assert(ks@.subrange(0, ks@.len() as int) =~= ks@);
    Some(out)
}

/// The request a module's import makes of the host, where its signature can
/// be declared by a host function.
pub open spec fn request_spec(key: KeyView, params: Seq<GuestKind>, results: Seq<GuestKind>) -> Option<
    RequestView,
> {
    if all_hostable(params) && all_hostable(results) {
        Some((key, (host_kinds_of(params), host_kinds_of(results))))
    } else {
        None
    }
}

/// Turns an import into a request to the host; gives back its key when its
/// signature holds a kind that no host function can declare.
pub fn to_request(f: &FunctionImport) -> (r: Result<ImportRequest, ImportKey>)
    ensures
        r matches Ok(q) ==> request_spec(f.key@, f.params@, f.results@) == Some(q@),
        r matches Err(k) ==> request_spec(f.key@, f.params@, f.results@) is None && k@ == f.key@,
{
    match host_kinds(&f.params) {
        None => Err(f.key.duplicate()),
        Some(p) => match host_kinds(&f.results) {
            None => Err(f.key.duplicate()),
            Some(res) => Ok(ImportRequest::new(f.key.duplicate(), Signature::new(p, res))),
        },
    }
}

/// Turns an export into a declaration the host can call, where its signature
/// can be written with host kinds.
pub fn to_export(f: &FunctionExport) -> (r: Option<ExportDecl>)
    ensures
        r is Some <==> all_hostable(f.params@) && all_hostable(f.results@),
        r matches Some(d) ==> d.name@ == f.name@ && d.signature@ == (
            host_kinds_of(f.params@),
            host_kinds_of(f.results@),
        ),
{
    match host_kinds(&f.params) {
        None => None,
        Some(p) => match host_kinds(&f.results) {
            None => None,
            Some(res) => Some(ExportDecl::new(f.name.clone(), Signature::new(p, res))),
        },
    }
}

/// Abstract form of an import: key, parameter kinds, result kinds.
pub type ImportView = (KeyView, Seq<GuestKind>, Seq<GuestKind>);

/// Abstract form of an export: name, parameter kinds, result kinds.
pub type ExportView = (Seq<char>, Seq<GuestKind>, Seq<GuestKind>);

impl View for FunctionImport {
    type V = ImportView;

    open spec fn view(&self) -> ImportView {
        (self.key@, self.params@, self.results@)
    }
}

impl View for FunctionExport {
    type V = ExportView;

    open spec fn view(&self) -> ExportView {
        (self.name@, self.params@, self.results@)
    }
}

/// The requests the imports `imps` make of the host, in order.
pub open spec fn requests_of(imps: Seq<ImportView>) -> Seq<RequestView>
    decreases imps.len(),
{
    if imps.len() == 0 {
        Seq::empty()
    } else {
        let rest = requests_of(imps.drop_last());
        let f = imps.last();
        match request_spec(f.0, f.1, f.2) {
            Some(q) => rest.push(q),
            None => rest,
        }
    }
}

/// Keys of the imports in `imps` that no host function can satisfy, in order.
pub open spec fn unsupported_of(imps: Seq<ImportView>) -> Seq<KeyView>
    decreases imps.len(),
{
    if imps.len() == 0 {
        Seq::empty()
    } else {
        let rest = unsupported_of(imps.drop_last());
        let f = imps.last();
        if request_spec(f.0, f.1, f.2) is None {
            rest.push(f.0)
        } else {
            rest
        }
    }
}

/// The exports in `exps` the host can call, as name and host signature, in order.
pub open spec fn callable_of(exps: Seq<ExportView>) -> Seq<(Seq<char>, SigView)>
    decreases exps.len(),
{
    if exps.len() == 0 {
        Seq::empty()
    } else {
        let rest = callable_of(exps.drop_last());
        let f = exps.last();
        if all_hostable(f.1) && all_hostable(f.2) {
            rest.push((f.0, (host_kinds_of(f.1), host_kinds_of(f.2))))
        } else {
            rest
        }
    }
}

/// What the bridge needs to know of a compiled module.
pub struct ModuleShape {
    /// The module's function imports, as the engine reports them.
    pub imports: Vec<FunctionImport>,
    /// The module's function exports, as the engine reports them.
    pub found_exports: Vec<FunctionExport>,
    /// The imports whose signatures a host function can declare.
    pub requests: Vec<ImportRequest>,
    /// The imports no host function can satisfy.
    pub unsupported: Vec<ImportKey>,
    /// The exports the host can call.
    pub exports: Vec<ExportDecl>,
    /// Whether the module asks for the Emscripten platform layer.
    pub platform: bool,
}

/// Describes a compiled module: its imports split into what the host can
/// provide and what it cannot, its callable exports, and whether it asks for
/// the platform layer.
pub fn inspect_module(module: &wasmer::Module) -> (r: ModuleShape)
    ensures
        imports_view(r.imports@) == function_imports_of(module),
        exports_view_of(r.found_exports@) == function_exports_of(module),
        requests_view(r.requests@) == requests_of(imports_view(r.imports@)),
        keys_view(r.unsupported@) == unsupported_of(imports_view(r.imports@)),
        exports_view(r.exports@) == callable_of(exports_view_of(r.found_exports@)),
        r.platform <==> exists|i: int|
            0 <= i < r.imports@.len() && is_platform_marker((#[trigger] r.imports@[i]).key@),
{
    let imports = function_imports(module);
    let ghost iv = imports_view(imports@);
    let mut requests: Vec<ImportRequest> = Vec::new();
    let mut unsupported: Vec<ImportKey> = Vec::new();
    let mut keys: Vec<ImportKey> = Vec::new();
    let mut i: usize = 0;
    while i < imports.len()
        invariant
            i <= imports@.len(),
            iv == imports_view(imports@),
            requests_view(requests@) == requests_of(iv.subrange(0, i as int)),
            keys_view(unsupported@) == unsupported_of(iv.subrange(0, i as int)),
            keys@.len() == i,
            forall|j: int| 0 <= j < i ==> (#[trigger] keys@[j])@ == imports@[j].key@,
        decreases imports@.len() - i,
    {
        let ghost cur = iv.subrange(0, i + 1);
        assert(cur.drop_last() =~= iv.subrange(0, i as int));
        assert(cur.last() == imports@[i as int]@);
        match to_request(&imports[i]) {
            Ok(q) => {
                requests.push(q);
                assert(requests_view(requests@) =~= requests_of(cur));
                assert(keys_view(unsupported@) =~= unsupported_of(cur));
            },
            Err(k) => {
                unsupported.push(k);
                assert(requests_view(requests@) =~= requests_of(cur));
                assert(keys_view(unsupported@) =~= unsupported_of(cur));
            },
        }
        keys.push(imports[i].key.duplicate());
        i = i + 1;
    }
    assert(iv.subrange(0, imports@.len() as int) =~= iv);
    let platform = needs_platform_layer(&keys);
    proof {
        if platform {
            let x = choose|x: int| 0 <= x < keys@.len() && is_platform_marker((#[trigger] keys@[x])@);
            assert(imports@[x].key@ == keys@[x]@);
        } else {
            assert forall|x: int| 0 <= x < imports@.len() implies !is_platform_marker(
                (#[trigger] imports@[x]).key@,
            ) by {
                assert(keys@[x]@ == imports@[x].key@);
            }
        }
    }
    let found = function_exports(module);
    let ghost ev = exports_view_of(found@);
    let mut exports: Vec<ExportDecl> = Vec::new();
    let mut j: usize = 0;
    while j < found.len()
        invariant
            j <= found@.len(),
            ev == exports_view_of(found@),
            platform == exists|x: int|
                0 <= x < imports@.len() && is_platform_marker((#[trigger] imports@[x]).key@),
            requests_view(requests@) == requests_of(imports_view(imports@)),
            keys_view(unsupported@) == unsupported_of(imports_view(imports@)),
            exports_view(exports@) == callable_of(ev.subrange(0, j as int)),
        decreases found@.len() - j,
    {
        let ghost cur = ev.subrange(0, j + 1);
        assert(cur.drop_last() =~= ev.subrange(0, j as int));
        assert(cur.last() == found@[j as int]@);
        match to_export(&found[j]) {
            Some(d) => {
                exports.push(d);
                assert(exports_view(exports@) =~= callable_of(cur));
            },
            None => {
                assert(exports_view(exports@) =~= callable_of(cur));
            },
        }
        j = j + 1;
    }
    assert(ev.subrange(0, found@.len() as int) =~= ev);
    let r = ModuleShape { imports, found_exports: found, requests, unsupported, exports, platform };
    assert(r.imports@ == imports@);
    r
}

/// Links everything a module imports against `table`: on success, for each
/// request in order, the index of the table entry that satisfies it; else
/// every import that cannot be satisfied, first those no host function can
/// declare, then those the table lacks.
pub fn link_shape(shape: &ModuleShape, table: &ImportTable) -> (r: Result<Vec<usize>, LinkError>)
    requires
        table.wf(),
    ensures
        r is Ok <==> shape.unsupported@.len() == 0 && missing(
            table@,
            requests_view(shape.requests@),
        ).len() == 0,
        r matches Ok(ix) ==> ix@.len() == shape.requests@.len() && forall|i: int|
            0 <= i < ix@.len() ==> {
                &&& (#[trigger] ix@[i]) < table@.len()
                &&& table@[ix@[i] as int].0 == shape.requests@[i].key@
                &&& compatible(table@[ix@[i] as int].1, shape.requests@[i].signature@)
            },
        r matches Err(e) ==> keys_view(e.missing@) == keys_view(shape.unsupported@) + missing(
            table@,
            requests_view(shape.requests@),
        ),
{
    let linked = link(&shape.requests, table);
    if shape.unsupported.len() == 0 {
        return linked;
    }
    let mut all: Vec<ImportKey> = Vec::new();
    let n = shape.unsupported.len();
    let mut i: usize = 0;
    while i < n
        invariant
            i <= n,
            n == shape.unsupported@.len(),
            all@.len() == i,
            forall|k: int| 0 <= k < i ==> (#[trigger] all@[k])@ == shape.unsupported@[k]@,
        decreases n - i,
    {
        all.push(shape.unsupported[i].duplicate());
        i = i + 1;
    }
    match linked {
        Ok(_) => {
            assert(keys_view(all@) =~= keys_view(shape.unsupported@) + missing(
                table@,
                requests_view(shape.requests@),
            ));
        },
        Err(e) => {
            let mut j: usize = 0;
            while j < e.missing.len()
                invariant
                    j <= e.missing@.len(),
                    n == shape.unsupported@.len(),
                    all@.len() == n + j,
                    forall|k: int| 0 <= k < n ==> (#[trigger] all@[k])@ == shape.unsupported@[k]@,
                    forall|k: int| 0 <= k < j ==> (#[trigger] all@[n + k])@ == e.missing@[k]@,
                decreases e.missing@.len() - j,
            {
                all.push(e.missing[j].duplicate());
                j = j + 1;
            }
            assert forall|k: int| 0 <= k < all@.len() implies #[trigger] keys_view(all@)[k] == (
            keys_view(shape.unsupported@) + keys_view(e.missing@))[k] by {
                if k >= n {
                    assert(all@[n + (k - n)] == all@[k]);
                }
            }
            assert(keys_view(all@) =~= keys_view(shape.unsupported@) + keys_view(e.missing@));
        },
    }
    Err(LinkError { missing: all })
}

/// The abstract forms of a list of imports.
pub open spec fn imports_view(fs: Seq<FunctionImport>) -> Seq<ImportView> {
    fs.map_values(|f: FunctionImport| f@)
}

/// The abstract forms of a list of engine exports.
pub open spec fn exports_view_of(fs: Seq<FunctionExport>) -> Seq<ExportView> {
    fs.map_values(|f: FunctionExport| f@)
}

/// Names and signatures of a list of export declarations.
pub open spec fn exports_view(ds: Seq<ExportDecl>) -> Seq<(Seq<char>, SigView)> {
    ds.map_values(|d: ExportDecl| (d.name@, d.signature@))
}

} // verus!
