use vstd::prelude::*;
use crate::link::{keys_view, ImportConflict, LinkError};
use crate::memory::{read_text_spec, GuestMemory, MemoryError};
use crate::registry::{kinds_compatible, ImportKey, RegistryError, Signature, ValueKind};

verus! {

/// Every failure the bridge reports.
pub enum BridgeError {
    /// The engine refused the module's bytes.
    CompileError(String),
    /// Host and platform tables declare these keys with incompatible signatures.
    ImportConflict(Vec<ImportKey>),
    /// These imports of the module are not satisfied.
    LinkError(Vec<ImportKey>),
    /// The module exports nothing under the name called.
    ExportNotFound,
    /// The arguments disagree with the export's parameters.
    ArityMismatch,
    /// The guest faulted while running.
    Trap(String),
    OutOfBounds,
    Overflow,
    InvalidEncoding,
    DuplicateImport,
}

impl BridgeError {
    pub fn from_memory(e: MemoryError) -> (r: BridgeError)
        ensures
            e == MemoryError::OutOfBounds ==> r is OutOfBounds,
            e == MemoryError::Overflow ==> r is Overflow,
            e == MemoryError::InvalidEncoding ==> r is InvalidEncoding,
    {
        match e {
            MemoryError::OutOfBounds => BridgeError::OutOfBounds,
            MemoryError::Overflow => BridgeError::Overflow,
            MemoryError::InvalidEncoding => BridgeError::InvalidEncoding,
        }
    }

    pub fn from_registry(e: RegistryError) -> (r: BridgeError)
        ensures
            r is DuplicateImport,
    {
        match e {
            RegistryError::DuplicateImport => BridgeError::DuplicateImport,
        }
    }

    pub fn from_conflict(e: ImportConflict) -> (r: BridgeError)
        ensures
            r matches BridgeError::ImportConflict(k) && keys_view(k@) == keys_view(e.keys@),
    {
        BridgeError::ImportConflict(e.keys)
    }

    pub fn from_link(e: LinkError) -> (r: BridgeError)
        ensures
            r matches BridgeError::LinkError(k) && keys_view(k@) == keys_view(e.missing@),
    {
        BridgeError::LinkError(e.missing)
    }
}

/// A stage of the bridge's pipeline.
#[derive(Clone, Copy, Debug, PartialEq, Eq, Structural)]
pub enum Stage {
    Compile,
    Link,
    Instantiate,
    Invoke,
    Finish,
}

/// Where the pipeline stands.
#[derive(Clone, Copy, Debug, PartialEq, Eq, Structural)]
pub enum Phase {
    Uncompiled,
    Compiled,
    Linked,
    Instantiated,
    Invoked,
    Done,
    /// A stage failed; nothing after it runs.
    Failed(Stage),
}

/// The stage that runs from `p`, if any.
pub open spec fn stage_spec(p: Phase) -> Option<Stage> {
    match p {
        Phase::Uncompiled => Some(Stage::Compile),
        Phase::Compiled => Some(Stage::Link),
        Phase::Linked => Some(Stage::Instantiate),
        Phase::Instantiated => Some(Stage::Invoke),
        Phase::Invoked => Some(Stage::Finish),
        _ => None,
    }
}

/// The phase after `p` once its stage has run and succeeded or not.
pub open spec fn advance_spec(p: Phase, succeeded: bool) -> Phase {
    match stage_spec(p) {
        None => p,
        Some(s) => if !succeeded {
            Phase::Failed(s)
        } else {
            match p {
                Phase::Uncompiled => Phase::Compiled,
                Phase::Compiled => Phase::Linked,
                Phase::Linked => Phase::Instantiated,
                Phase::Instantiated => Phase::Invoked,
                _ => Phase::Done,
            }
        },
    }
}

/// The rank of a phase along the pipeline's one path.
pub open spec fn rank(p: Phase) -> int {
    match p {
        Phase::Uncompiled => 0,
        Phase::Compiled => 1,
        Phase::Linked => 2,
        Phase::Instantiated => 3,
        Phase::Invoked => 4,
        Phase::Done => 5,
        Phase::Failed(_) => 6,
    }
}

impl Phase {
    /// The stage that runs from this phase; none once done or failed.
    pub fn stage(self) -> (r: Option<Stage>)
        ensures
            r == stage_spec(self),
    {
        match self {
            Phase::Uncompiled => Some(Stage::Compile),
            Phase::Compiled => Some(Stage::Link),
            Phase::Linked => Some(Stage::Instantiate),
            Phase::Instantiated => Some(Stage::Invoke),
            Phase::Invoked => Some(Stage::Finish),
            _ => None,
        }
    }

    /// The next phase once this phase's stage has run.
    pub fn advance(self, succeeded: bool) -> (r: Phase)
        ensures
            r == advance_spec(self, succeeded),
    {
        match self.stage() {
            None => self,
            Some(s) => if !succeeded {
                Phase::Failed(s)
            } else {
                match self {
                    Phase::Uncompiled => Phase::Compiled,
                    Phase::Compiled => Phase::Linked,
                    Phase::Linked => Phase::Instantiated,
                    Phase::Instantiated => Phase::Invoked,
                    _ => Phase::Done,
                }
            },
        }
    }

    /// Whether nothing more runs.
    pub fn is_terminal(self) -> (r: bool)
        ensures
            r == (stage_spec(self) is None),
    {
        self.stage().is_none()
    }
}

/// The pipeline never goes back: each step moves to a later phase, or stays
/// where it ended; a failure keeps the stage that failed.
pub proof fn lemma_advance_forward(p: Phase, succeeded: bool)
    ensures
        stage_spec(p) is Some ==> rank(advance_spec(p, succeeded)) > rank(p),
        stage_spec(p) is None ==> advance_spec(p, succeeded) == p,
        !succeeded && stage_spec(p) is Some ==> advance_spec(p, succeeded) == Phase::Failed(
            stage_spec(p)->0,
        ),
{
}

/// A function the module exports: its name and signature.
pub struct ExportDecl {
    pub name: String,
    pub signature: Signature,
}

impl ExportDecl {
    pub fn new(name: String, signature: Signature) -> (r: ExportDecl)
        ensures
            r.name@ == name@,
            r.signature@ == signature@,
    {
        ExportDecl { name, signature }
    }
}

/// Whether some export is named `name`.
pub open spec fn has_export(exports: Seq<ExportDecl>, name: Seq<char>) -> bool {
    exists|i: int| 0 <= i < exports.len() && (#[trigger] exports[i]).name@ == name
}

/// Finds the export `name` and checks `args` against its parameters; on
/// success gives the export's index. Nothing is changed, so a failed call
/// leaves the instance as usable as before.
pub fn resolve_export(exports: &Vec<ExportDecl>, name: &String, args: &Vec<ValueKind>) -> (r: Result<
    usize,
    BridgeError,
>)
    ensures
        r is Ok ==> has_export(exports@, name@),
        r matches Ok(i) ==> i < exports@.len() && exports@[i as int].name@ == name@ && kinds_compatible(
            exports@[i as int].signature@.0,
            args@,
        ) && forall|j: int| 0 <= j < i ==> (#[trigger] exports@[j]).name@ != name@,
        r matches Err(BridgeError::ExportNotFound) <==> !has_export(exports@, name@),
        r matches Err(BridgeError::ArityMismatch) ==> exists|i: int|
            0 <= i < exports@.len() && (#[trigger] exports@[i]).name@ == name@ && !kinds_compatible(
                exports@[i].signature@.0,
                args@,
            ) && forall|j: int| 0 <= j < i ==> (#[trigger] exports@[j]).name@ != name@,
        r matches Err(e) ==> e is ExportNotFound || e is ArityMismatch,
{
    let mut i: usize = 0;
    while i < exports.len()
        invariant
            i <= exports@.len(),
            forall|j: int| 0 <= j < i ==> (#[trigger] exports@[j]).name@ != name@,
        decreases exports@.len() - i,
    {
        if exports[i].name == *name {
            if crate::registry::kinds_agree(&exports[i].signature.params, args) {
                return Ok(i);
            } else {
                return Err(BridgeError::ArityMismatch);
            }
        }
        i = i + 1;
    }
    Err(BridgeError::ExportNotFound)
}

/// Namespace and names by which a module asks for the Emscripten platform layer.
pub open spec fn is_platform_marker(k: (Seq<char>, Seq<char>)) -> bool {
    &&& k.0 == "env"@
    &&& (k.1 == "_emscripten_memcpy_big"@ || k.1 == "emscripten_memcpy_big"@ || k.1
        == "__map_file"@)
}

/// Whether `s` holds the text `t`.
fn same_text(s: &String, t: &str) -> (r: bool)
    ensures
        r == (s@ == t@),
{
    let owned: String = t.to_owned();
    *s == owned
}

/// Whether a module importing `keys` asks for the Emscripten platform layer.
pub fn needs_platform_layer(keys: &Vec<ImportKey>) -> (r: bool)
    ensures
        r == exists|i: int| 0 <= i < keys@.len() && is_platform_marker((#[trigger] keys@[i])@),
{
    let mut i: usize = 0;
    while i < keys.len()
        invariant
            i <= keys@.len(),
            forall|j: int| 0 <= j < i ==> !is_platform_marker((#[trigger] keys@[j])@),
        decreases keys@.len() - i,
    {
        let k = &keys[i];
        if same_text(&k.namespace, "env") && (same_text(&k.name, "_emscripten_memcpy_big")
            || same_text(&k.name, "emscripten_memcpy_big") || same_text(&k.name, "__map_file")) {
            return true;
        }
        i = i + 1;
    }
    false
}

/// The host function `env.print_str(ptr, len)`: the text the guest passes in
/// its memory, or why it cannot be read.
pub fn print_str(memory: &GuestMemory, ptr: u32, len: u32) -> (r: Result<String, BridgeError>)
    ensures
        r matches Ok(s) ==> read_text_spec(memory@, ptr, len) == Ok::<Seq<char>, MemoryError>(s@),
        r matches Err(BridgeError::OutOfBounds) <==> read_text_spec(memory@, ptr, len) == Err::<Seq<char>, MemoryError>(
            MemoryError::OutOfBounds,
        ),
        r matches Err(BridgeError::Overflow) <==> read_text_spec(memory@, ptr, len) == Err::<Seq<char>, MemoryError>(
            MemoryError::Overflow,
        ),
        r matches Err(BridgeError::InvalidEncoding) <==> read_text_spec(memory@, ptr, len) == Err::<
            Seq<char>,
            MemoryError,
        >(MemoryError::InvalidEncoding),
        r matches Err(e) ==> e is OutOfBounds || e is Overflow || e is InvalidEncoding,
{
    match memory.read_str(ptr, len) {
        Ok(s) => Ok(s),
        Err(e) => Err(BridgeError::from_memory(e)),
    }
}

} // verus!
