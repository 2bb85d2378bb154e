use vstd::prelude::*;
use vstd::slice::slice_to_vec;
use crate::element::{black, ZERO};
use crate::error::LoadError;
use crate::line::{
    material_directive, material_directive_of, material_name, material_name_of,
    MaterialDirective, SourceLine,
};

verus! {

/// One material: its name and its diffuse colour.
#[derive(Debug)]
struct Material {
    name: Vec<u8>,
    color: [u32; 3],
}

/// The colours of the materials, by name. A name is any run of bytes, the
/// empty one included.
///
/// The table keeps its materials in the order in which their names first
/// came, and no two of them bear the same name.
#[derive(Debug)]
pub struct MaterialTable {
    entries: Vec<Material>,
}

/// The colour of the first of `entries` that is named `name`.
spec fn first_named(entries: Seq<Material>, name: Seq<u8>) -> Option<[u32; 3]>
    decreases entries.len(),
{
    if entries.len() == 0 {
        None
    } else {
        match first_named(entries.drop_last(), name) {
            Some(color) => Some(color),
            None => if entries.last().name@ == name {
                Some(entries.last().color)
            } else {
                None
            },
        }
    }
}

/// Where none of the first `n` entries bears a name and the `n`-th does, the
/// `n`-th is the one found.
proof fn lemma_first_named_at(entries: Seq<Material>, name: Seq<u8>, n: int)
    requires
        0 <= n < entries.len(),
        first_named(entries.take(n), name) is None,
        entries[n].name@ == name,
    ensures
        first_named(entries, name) == Some(entries[n].color),
    decreases entries.len(),
{
    let front = entries.drop_last();
    if n == entries.len() - 1 {
        assert(front =~= entries.take(n));
    } else {
        assert(front.take(n) =~= entries.take(n));
        lemma_first_named_at(front, name, n);
    }
}

/// A name that is not found is borne by no entry.
proof fn lemma_not_named(entries: Seq<Material>, name: Seq<u8>)
    requires
        first_named(entries, name) is None,
    ensures
        forall|k: int| 0 <= k < entries.len() ==> (#[trigger] entries[k]).name@ != name,
    decreases entries.len(),
{
    if entries.len() > 0 {
        let front = entries.drop_last();
        lemma_not_named(front, name);
        assert forall|k: int| 0 <= k < entries.len() implies (#[trigger] entries[k]).name@
            != name by {
            if k < front.len() {
                assert(entries[k] == front[k]);
            }
        }
    }
}

/// Giving the `n`-th entry another colour changes nothing of what is found
/// for another name, nor of what is found among the entries before it.
proof fn lemma_first_named_recolored(
    entries: Seq<Material>,
    changed: Seq<Material>,
    n: int,
    name: Seq<u8>,
)
    requires
        0 <= n < entries.len(),
        changed.len() == entries.len(),
        changed[n].name@ == entries[n].name@,
        forall|k: int| 0 <= k < entries.len() && k != n ==> changed[k] == entries[k],
    ensures
        name != entries[n].name@ ==> first_named(changed, name) == first_named(entries, name),
        first_named(entries.take(n), name) == first_named(changed.take(n), name),
    decreases entries.len(),
{
    let front = entries.drop_last();
    let changed_front = changed.drop_last();
    if n == entries.len() - 1 {
        assert(front =~= changed_front);
        assert(entries.take(n) =~= front);
        assert(changed.take(n) =~= changed_front);
    } else {
        lemma_first_named_recolored(front, changed_front, n, name);
        assert(front.take(n) =~= entries.take(n));
        assert(changed_front.take(n) =~= changed.take(n));
    }
}

impl View for MaterialTable {
    type V = Map<Seq<u8>, [u32; 3]>;

    closed spec fn view(&self) -> Map<Seq<u8>, [u32; 3]> {
        Map::new(
            |name: Seq<u8>| first_named(self.entries@, name) is Some,
            |name: Seq<u8>| first_named(self.entries@, name)->0,
        )
    }
}

impl MaterialTable {
    #[verifier::type_invariant]
    spec fn names_differ(self) -> bool {
        forall|i: int, j: int|
            0 <= i < j < self.entries@.len() ==> (#[trigger] self.entries@[i]).name@ != (
            #[trigger] self.entries@[j]).name@
    }

    /// A table without materials.
    pub fn new() -> (r: Self)
        ensures
            r@ == Map::<Seq<u8>, [u32; 3]>::empty(),
    {
        let r = MaterialTable { entries: Vec::new() };
        assert(r@ =~= Map::<Seq<u8>, [u32; 3]>::empty());
        r
    }

    /// Where the first material named `name` stands, if there is one.
    fn position(&self, name: &[u8]) -> (r: Option<usize>)
        ensures
            match r {
                Some(i) => i < self.entries@.len() && self.entries@[i as int].name@ == name@
                    && first_named(self.entries@.take(i as int), name@) is None
                    && first_named(self.entries@, name@) == Some(self.entries@[i as int].color),
                None => first_named(self.entries@, name@) is None,
            },
    {
        let mut i: usize = 0;
        while i < self.entries.len()
            invariant
                i <= self.entries@.len(),
                first_named(self.entries@.take(i as int), name@) is None,
            decreases self.entries@.len() - i,
        {
            if same_bytes(self.entries[i].name.as_slice(), name) {
                proof {
                    lemma_first_named_at(self.entries@, name@, i as int);
                }
                return Some(i);
            }
            assert(self.entries@.take(i + 1).drop_last() =~= self.entries@.take(i as int));
            i += 1;
        }
        assert(self.entries@.take(i as int) =~= self.entries@);
        None
    }

    /// The colour of the material named `name`, if the table holds it.
    pub fn get(&self, name: &[u8]) -> (r: Option<[u32; 3]>)
        ensures
            r == if self@.contains_key(name@) {
                Some(self@[name@])
            } else {
                None
            },
    {
        match self.position(name) {
            Some(i) => Some(self.entries[i].color),
            None => None,
        }
    }

    /// Whether the table holds a material named `name`.
    pub fn contains(&self, name: &[u8]) -> (r: bool)
        ensures
            r == self@.contains_key(name@),
    {
        self.position(name).is_some()
    }

    /// Gives the material named `name` the colour `color`, whether the table
    /// held it before or not.
    pub fn insert(&mut self, name: &[u8], color: [u32; 3])
        ensures
            final(self)@ == old(self)@.insert(name@, color),
    {
        proof {
            use_type_invariant(&*self);
        }
        let found = self.position(name);
        let mut entries: Vec<Material> = Vec::new();
        core::mem::swap(&mut entries, &mut self.entries);
        let ghost before = entries@;
        match found {
            Some(i) => {
                entries[i].color = color;
                proof {
                    assert forall|other: Seq<u8>|
                        first_named(entries@, other) == if other == name@ {
                            Some(color)
                        } else {
                            first_named(before, other)
                        } by {
                        lemma_first_named_recolored(before, entries@, i as int, other);
                        if other == name@ {
                            lemma_first_named_at(entries@, other, i as int);
                        }
                    }
                }
            },
            None => {
                proof {
                    lemma_not_named(before, name@);
                }
                entries.push(Material { name: slice_to_vec(name), color });
                assert(entries@.drop_last() =~= before);
            },
        }
        self.entries = entries;
        assert(self@ =~= old(self)@.insert(name@, color));
    }
}

/// Whether two runs of bytes are the same.
pub fn same_bytes(a: &[u8], b: &[u8]) -> (r: bool)
    ensures
        r == (a@ == b@),
{
    if a.len() != b.len() {
        return false;
    }
    let mut i: usize = 0;
    while i < a.len()
        invariant
            i <= a.len(),
            a.len() == b.len(),
            forall|k: int| 0 <= k < i ==> a@[k] == b@[k],
        decreases a.len() - i,
    {
        if a[i] != b[i] {
            return false;
        }
        i += 1;
    }
    assert(a@ =~= b@);
    true
}

/// Where the reading of a material file stands: the colours so far and the
/// name of the active material. The active name is empty until the first
/// material is declared.
pub struct MaterialState {
    pub colors: Map<Seq<u8>, [u32; 3]>,
    pub active: Seq<u8>,
}

/// The state before the first line.
pub open spec fn material_start() -> MaterialState {
    MaterialState { colors: Map::empty(), active: Seq::empty() }
}

/// What one line of a material file does to the state.
///
/// A `newmtl` line makes its name the active one and gives it the colour
/// black, also where the name was declared before. A `Kd` line gives the
/// active material the colour that the line's values hold; it fails where the
/// values are missing, and else where the table does not hold the active name.
/// Any other line changes nothing.
pub open spec fn material_step(state: MaterialState, line: SourceLine) -> Result<
    MaterialState,
    LoadError,
> {
    match material_directive_of(line.text@) {
        MaterialDirective::Declare => Ok(
            MaterialState {
                colors: state.colors.insert(material_name_of(line.text@), black()),
                active: material_name_of(line.text@),
            },
        ),
        MaterialDirective::Diffuse => match line.values {
            None => Err(LoadError::Parse),
            Some(rgb) => if state.colors.contains_key(state.active) {
                Ok(MaterialState { colors: state.colors.insert(state.active, rgb), ..state })
            } else {
                Err(LoadError::Lookup)
            },
        },
        MaterialDirective::Other => Ok(state),
    }
}

/// The state after all of `lines`, read in order from the start state; the
/// first line that fails decides the error.
pub open spec fn materials_after(lines: Seq<SourceLine>) -> Result<MaterialState, LoadError>
    decreases lines.len(),
{
    if lines.len() == 0 {
        Ok(material_start())
    } else {
        match materials_after(lines.drop_last()) {
            Err(e) => Err(e),
            Ok(state) => material_step(state, lines.last()),
        }
    }
}

/// The table that a material file gives.
pub open spec fn material_table_of(lines: Seq<SourceLine>) -> Result<
    Map<Seq<u8>, [u32; 3]>,
    LoadError,
> {
    match materials_after(lines) {
        Err(e) => Err(e),
        Ok(state) => Ok(state.colors),
    }
}

/// Reads a material file line by line.
#[derive(Debug)]
pub struct MaterialReader {
    table: MaterialTable,
    active: Vec<u8>,
}

impl View for MaterialReader {
    type V = MaterialState;

    closed spec fn view(&self) -> MaterialState {
        MaterialState { colors: self.table@, active: self.active@ }
    }
}

impl MaterialReader {
    /// A reader that has read nothing yet.
    pub fn new() -> (r: Self)
        ensures
            r@ == material_start(),
    {
        MaterialReader { table: MaterialTable::new(), active: Vec::new() }
    }

    /// Reads one line. A line that fails leaves the reader as it was.
    pub fn read_line(&mut self, line: &SourceLine) -> (r: Result<(), LoadError>)
        ensures
            match material_step(old(self)@, *line) {
                Ok(state) => r is Ok && final(self)@ == state,
                Err(e) => r == Err::<(), LoadError>(e) && final(self)@ == old(self)@,
            },
    {
        match material_directive(line.text.as_slice()) {
            MaterialDirective::Declare => {
                let name = material_name(line.text.as_slice());
                self.table.insert(name.as_slice(), [ZERO, ZERO, ZERO]);
                self.active = name;
                Ok(())
            },
            MaterialDirective::Diffuse => match line.values {
                None => Err(LoadError::Parse),
                Some(rgb) => {
                    if self.table.contains(self.active.as_slice()) {
                        self.table.insert(self.active.as_slice(), rgb);
                        Ok(())
                    } else {
                        Err(LoadError::Lookup)
                    }
                },
            },
            MaterialDirective::Other => Ok(()),
        }
    }

    /// Hands out the table read so far.
    pub fn finish(self) -> (r: MaterialTable)
        ensures
            r@ == self@.colors,
    {
        self.table
    }
}

/// Builds the material table from the lines of a material file.
pub fn load_materials(lines: &[SourceLine]) -> (r: Result<MaterialTable, LoadError>)
    ensures
        match material_table_of(lines@) {
            Ok(colors) => r matches Ok(table) && table@ == colors,
            Err(e) => r matches Err(x) && x == e,
        },
{
    let mut reader = MaterialReader::new();
    let mut i: usize = 0;
    assert(lines@.take(0) =~= Seq::<SourceLine>::empty());
    while i < lines.len()
        invariant
            i <= lines.len(),
            materials_after(lines@.take(i as int)) == Ok::<MaterialState, LoadError>(reader@),
        decreases lines.len() - i,
    {
        assert(lines@.take(i + 1).drop_last() =~= lines@.take(i as int));
        match reader.read_line(&lines[i]) {
            Ok(()) => {},
            Err(e) => {
                proof {
                    lemma_materials_fail_early(lines@, i + 1);
                }
                return Err(e);
            },
        }
        i += 1;
    }
    assert(lines@.take(i as int) =~= lines@);
    Ok(reader.finish())
}

/// A material file whose first `n` lines fail fails as a whole, with the
/// same error.
pub proof fn lemma_materials_fail_early(lines: Seq<SourceLine>, n: int)
    requires
        0 <= n <= lines.len(),
        materials_after(lines.take(n)) is Err,
    ensures
        materials_after(lines) == materials_after(lines.take(n)),
    decreases lines.len(),
{
    if n == lines.len() {
        assert(lines.take(n) =~= lines);
    } else {
        assert(lines.drop_last().take(n) =~= lines.take(n));
        lemma_materials_fail_early(lines.drop_last(), n);
    }
}

} // verus!
