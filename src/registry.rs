use vstd::prelude::*;

verus! {

/// The primitive kinds a host function signature may use.
#[derive(Clone, Copy, Debug, PartialEq, Eq, Structural)]
pub enum ValueKind {
    I32,
    U32,
    I64,
    U64,
    F32,
    F64,
}

impl ValueKind {
    /// The kind the guest sees: unsigned kinds share the guest's integer of their width.
    pub open spec fn lowered(self) -> ValueKind {
        match self {
            ValueKind::U32 => ValueKind::I32,
            ValueKind::U64 => ValueKind::I64,
            k => k,
        }
    }

    pub fn lower(self) -> (r: ValueKind)
        ensures
            r == self.lowered(),
    {
        match self {
            ValueKind::U32 => ValueKind::I32,
            ValueKind::U64 => ValueKind::I64,
            k => k,
        }
    }
}

/// The guest-level kinds of a list of kinds.
pub open spec fn lowered_kinds(ks: Seq<ValueKind>) -> Seq<ValueKind> {
    ks.map_values(|k: ValueKind| k.lowered())
}

/// Whether two lists of kinds agree at the guest level.
pub open spec fn kinds_compatible(a: Seq<ValueKind>, b: Seq<ValueKind>) -> bool {
    lowered_kinds(a) == lowered_kinds(b)
}

/// Abstract form of a signature: parameter kinds, then result kinds.
pub type SigView = (Seq<ValueKind>, Seq<ValueKind>);

/// Abstract form of an import key: namespace, then name.
pub type KeyView = (Seq<char>, Seq<char>);

/// Abstract form of an import entry: key, signature, handler.
pub type EntryView = (KeyView, SigView, u32);

/// Whether two signatures agree at the guest level.
pub open spec fn compatible(a: SigView, b: SigView) -> bool {
    kinds_compatible(a.0, b.0) && kinds_compatible(a.1, b.1)
}

/// Copies a list of kinds.
pub fn copy_kinds(ks: &Vec<ValueKind>) -> (r: Vec<ValueKind>)
    ensures
        r@ == ks@,
{
    let mut out: Vec<ValueKind> = Vec::new();
    let mut i: usize = 0;
    while i < ks.len()
        invariant
            i <= ks@.len(),
            out@ == ks@.subrange(0, i as int),
        decreases ks@.len() - i,
    {
        out.push(ks[i]);
        i = i + 1;
        assert(out@ =~= ks@.subrange(0, i as int));
    }
    assert(out@ =~= ks@);
    out
}

/// Whether two lists of kinds agree at the guest level.
pub fn kinds_agree(a: &Vec<ValueKind>, b: &Vec<ValueKind>) -> (r: bool)
    ensures
        r == kinds_compatible(a@, b@),
{
    if a.len() != b.len() {
        assert(lowered_kinds(a@).len() != lowered_kinds(b@).len());
        return false;
    }
    let mut i: usize = 0;
    while i < a.len()
        invariant
            a@.len() == b@.len(),
            i <= a@.len(),
            forall|j: int| 0 <= j < i ==> (#[trigger] a@[j]).lowered() == b@[j].lowered(),
        decreases a@.len() - i,
    {
        if a[i].lower() != b[i].lower() {
            assert(lowered_kinds(a@)[i as int] != lowered_kinds(b@)[i as int]);
            return false;
        }
        i = i + 1;
    }
    assert(lowered_kinds(a@) =~= lowered_kinds(b@));
    true
}

/// Parameter and result kinds of a host function or of an import a module expects.
pub struct Signature {
    pub params: Vec<ValueKind>,
    pub results: Vec<ValueKind>,
}

impl View for Signature {
    type V = SigView;

    open spec fn view(&self) -> SigView {
        (self.params@, self.results@)
    }
}

impl Signature {
    pub fn new(params: Vec<ValueKind>, results: Vec<ValueKind>) -> (r: Signature)
        ensures
            r@ == (params@, results@),
    {
        Signature { params, results }
    }

    /// A copy of this signature.
    pub fn duplicate(&self) -> (r: Signature)
        ensures
            r@ == self@,
    {
        Signature { params: copy_kinds(&self.params), results: copy_kinds(&self.results) }
    }

    /// Whether the two signatures agree at the guest level.
    pub fn matches(&self, other: &Signature) -> (r: bool)
        ensures
            r == compatible(self@, other@),
    {
        kinds_agree(&self.params, &other.params) && kinds_agree(&self.results, &other.results)
    }
}

/// The namespace and name under which a module imports a function.
pub struct ImportKey {
    pub namespace: String,
    pub name: String,
}

impl View for ImportKey {
    type V = KeyView;

    open spec fn view(&self) -> KeyView {
        (self.namespace@, self.name@)
    }
}

impl ImportKey {
    pub fn new(namespace: String, name: String) -> (r: ImportKey)
        ensures
            r@ == (namespace@, name@),
    {
        ImportKey { namespace, name }
    }

    /// A copy of this key.
    pub fn duplicate(&self) -> (r: ImportKey)
        ensures
            r@ == self@,
    {
        ImportKey { namespace: self.namespace.clone(), name: self.name.clone() }
    }

    /// Whether both keys name the same import.
    pub fn same(&self, other: &ImportKey) -> (r: bool)
        ensures
            r == (self@ == other@),
    {
        self.namespace == other.namespace && self.name == other.name
    }
}

/// A host function offered to guests: its key, its signature, and the handler
/// number under which the embedder dispatches calls to it.
pub struct ImportEntry {
    pub key: ImportKey,
    pub signature: Signature,
    pub handler: u32,
}

impl View for ImportEntry {
    type V = EntryView;

    open spec fn view(&self) -> EntryView {
        (self.key@, self.signature@, self.handler)
    }
}

impl ImportEntry {
    pub fn new(key: ImportKey, signature: Signature, handler: u32) -> (r: ImportEntry)
        ensures
            r@ == (key@, signature@, handler),
    {
        ImportEntry { key, signature, handler }
    }

    /// A copy of this entry.
    pub fn duplicate(&self) -> (r: ImportEntry)
        ensures
            r@ == self@,
    {
        ImportEntry {
            key: self.key.duplicate(),
            signature: self.signature.duplicate(),
            handler: self.handler,
        }
    }
}

/// The abstract forms of a list of entries.
pub open spec fn entries_view(es: Seq<ImportEntry>) -> Seq<EntryView> {
    es.map_values(|e: ImportEntry| e@)
}

/// Whether some entry of `es` has key `k`.
pub open spec fn has_key(es: Seq<EntryView>, k: KeyView) -> bool {
    exists|i: int| 0 <= i < es.len() && (#[trigger] es[i]).0 == k
}

/// No two entries share a key.
pub open spec fn unique_keys(es: Seq<EntryView>) -> bool {
    forall|i: int, j: int|
        0 <= i < es.len() && 0 <= j < es.len() && i != j ==> (#[trigger] es[i]).0 != (#[trigger] es[j]).0
}

/// Why a registration was refused.
#[derive(Clone, Copy, Debug, PartialEq, Eq, Structural)]
pub enum RegistryError {
    /// The namespace and name are registered already.
    DuplicateImport,
}

/// What registering `e` does to the entries `es`.
pub open spec fn register_spec(es: Seq<EntryView>, e: EntryView) -> Result<Seq<EntryView>, RegistryError> {
    if has_key(es, e.0) {
        Err(RegistryError::DuplicateImport)
    } else {
        Ok(es.push(e))
    }
}

/// The entries after registering `e` on `es`, whether or not it was accepted.
pub open spec fn after_register(es: Seq<EntryView>, e: EntryView) -> Seq<EntryView> {
    match register_spec(es, e) {
        Ok(n) => n,
        Err(_) => es,
    }
}

/// Registering the same namespace and name twice refuses the second call,
/// whatever the two signatures and handlers.
pub proof fn lemma_second_register_refused(es: Seq<EntryView>, first: EntryView, second: EntryView)
    requires
        first.0 == second.0,
    ensures
        register_spec(after_register(es, first), second) == Err::<Seq<EntryView>, RegistryError>(
            RegistryError::DuplicateImport,
        ),
{
    if !has_key(es, first.0) {
        let n = es.push(first);
        assert(n[es.len() as int].0 == second.0);
    }
}

/// Index of the entry with key `k` in `entries`, if there is one.
fn find_key(entries: &Vec<ImportEntry>, k: &ImportKey) -> (r: Option<usize>)
    ensures
        r matches Some(i) ==> i < entries@.len() && entries@[i as int].key@ == k@,
        r is None ==> !has_key(entries_view(entries@), k@),
{
    let mut i: usize = 0;
    while i < entries.len()
        invariant
            i <= entries@.len(),
            forall|j: int| 0 <= j < i ==> (#[trigger] entries@[j]).key@ != k@,
        decreases entries@.len() - i,
    {
        if entries[i].key.same(k) {
            return Some(i);
        }
        i = i + 1;
    }
    assert forall|j: int| 0 <= j < entries@.len() implies (#[trigger] entries_view(entries@)[j]).0
        != k@ by {
        assert(entries_view(entries@)[j] == entries@[j]@);
    }
    None
}

/// Copies a list of entries.
fn copy_entries(es: &Vec<ImportEntry>) -> (r: Vec<ImportEntry>)
    ensures
        entries_view(r@) == entries_view(es@),
{
    let mut out: Vec<ImportEntry> = Vec::new();
    let mut i: usize = 0;
    while i < es.len()
        invariant
            i <= es@.len(),
            out@.len() == i,
            forall|j: int| 0 <= j < i ==> (#[trigger] out@[j])@ == es@[j]@,
        decreases es@.len() - i,
    {
        let e = es[i].duplicate();
        out.push(e);
        i = i + 1;
    }
    assert(entries_view(out@) =~= entries_view(es@));
    out
}

/// An immutable set of host functions, keyed by namespace and name, handed to
/// the engine when a module is linked.
pub struct ImportTable {
    entries: Vec<ImportEntry>,
}

impl View for ImportTable {
    type V = Seq<EntryView>;

    closed spec fn view(&self) -> Seq<EntryView> {
        entries_view(self.entries@)
    }
}

impl ImportTable {
    /// Keys are unique.
    pub open spec fn wf(&self) -> bool {
        unique_keys(self@)
    }

    /// A table with no entries.
    pub fn empty() -> (r: ImportTable)
        ensures
            r@ == Seq::<EntryView>::empty(),
            r.wf(),
    {
        let r = ImportTable { entries: Vec::new() };
        assert(r@ =~= Seq::<EntryView>::empty());
        r
    }

    pub fn len(&self) -> (r: usize)
        ensures
            r == self@.len(),
    {
        self.entries.len()
    }

    /// The entry at index `i`.
    pub fn entry(&self, i: usize) -> (r: &ImportEntry)
        requires
            i < self@.len(),
        ensures
            r@ == self@[i as int],
    {
        &self.entries[i]
    }

    /// A copy of this table.
    pub fn copy(&self) -> (r: ImportTable)
        ensures
            r@ == self@,
    {
        ImportTable { entries: copy_entries(&self.entries) }
    }

    /// Adds `e` at the end.
    pub(crate) fn append(&mut self, e: ImportEntry)
        ensures
            final(self)@ == old(self)@.push(e@),
    {
        let ghost before = self@;
        self.entries.push(e);
        assert(self@ =~= before.push(e@));
    }

    /// Index of the entry with key `k`, if there is one.
    pub fn position(&self, k: &ImportKey) -> (r: Option<usize>)
        ensures
            r matches Some(i) ==> i < self@.len() && self@[i as int].0 == k@,
            r is None ==> !has_key(self@, k@),
    {
        find_key(&self.entries, k)
    }
}

/// Host functions declared by the embedder before a module is linked.
pub struct Registry {
    entries: Vec<ImportEntry>,
}

impl View for Registry {
    type V = Seq<EntryView>;

    closed spec fn view(&self) -> Seq<EntryView> {
        entries_view(self.entries@)
    }
}

impl Registry {
    /// Keys are unique.
    pub open spec fn wf(&self) -> bool {
        unique_keys(self@)
    }

    /// A registry with no entries.
    pub fn new() -> (r: Registry)
        ensures
            r@ == Seq::<EntryView>::empty(),
            r.wf(),
    {
        let r = Registry { entries: Vec::new() };
        assert(r@ =~= Seq::<EntryView>::empty());
        r
    }

    pub fn len(&self) -> (r: usize)
        ensures
            r == self@.len(),
    {
        self.entries.len()
    }

    /// Declares `handler` as the host function `namespace.name` with `signature`.
    pub fn register(
        &mut self,
        namespace: String,
        name: String,
        signature: Signature,
        handler: u32,
    ) -> (r: Result<(), RegistryError>)
        requires
            old(self).wf(),
        ensures
            final(self).wf(),
            r matches Ok(_) ==> register_spec(
                old(self)@,
                ((namespace@, name@), signature@, handler),
            ) == Ok::<Seq<EntryView>, RegistryError>(final(self)@),
            r matches Err(e) ==> register_spec(
                old(self)@,
                ((namespace@, name@), signature@, handler),
            ) == Err::<Seq<EntryView>, RegistryError>(e),
            r is Err ==> final(self)@ == old(self)@,
    {
        let key = ImportKey::new(namespace, name);
        match find_key(&self.entries, &key) {
            Some(i) => {
                assert(entries_view(self.entries@)[i as int] == self.entries@[i as int]@);
                Err(RegistryError::DuplicateImport)
            },
            None => {
                let e = ImportEntry::new(key, signature, handler);
                let ghost before = self@;
                self.entries.push(e);
                assert(self@ =~= before.push(e@));
                Ok(())
            },
        }
    }

    /// A snapshot of the registry as an import table; later registrations do
    /// not reach it.
    pub fn build(&self) -> (r: ImportTable)
        requires
            self.wf(),
        ensures
            r@ == self@,
            r.wf(),
    {
        ImportTable { entries: copy_entries(&self.entries) }
    }
}

} // verus!
