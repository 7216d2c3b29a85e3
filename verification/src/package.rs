//! Package records and the index in which names are looked up.
//!
//! A [`PackageMetadata`] holds what the rest of the library reads of one
//! package. A [`PackageIndex`] is an ordered collection of such records in
//! which no name occurs twice; it answers the two lookups that resolution
//! needs: a dependency by its exact name, and the root package by its base
//! name, its name, or its name followed by `-` and its version.
use vstd::prelude::*;

verus! {

/// The mathematical value of a [`PackageMetadata`].
pub struct PackageView {
    pub name: Seq<char>,
    pub base: Option<Seq<char>>,
    pub version: Seq<char>,
    pub depends: Seq<Seq<char>>,
    pub file_name: Seq<char>,
    pub compressed_size: u64,
}

/// One package of a repository: its identity, the names of the packages it
/// depends on at run time, and where its archive is found.
#[derive(Debug, PartialEq, Eq)]
pub struct PackageMetadata {
    /// Full name, unique within an index.
    pub name: String,
    /// Name without the architecture part, where the repository gives one.
    pub base: Option<String>,
    pub version: String,
    /// Names of the run-time dependencies, in declared order.
    pub depends: Vec<String>,
    /// File name of the archive, relative to the repository URL.
    pub file_name: String,
    /// Size of the archive in bytes, as the repository declares it.
    pub compressed_size: u64,
}

/// The texts of a sequence of strings.
pub open spec fn texts(strings: Seq<String>) -> Seq<Seq<char>> {
    Seq::new(strings.len(), |i: int| strings[i]@)
}

impl View for PackageMetadata {
    type V = PackageView;

    open spec fn view(&self) -> PackageView {
        PackageView {
            name: self.name@,
            base: match self.base {
                Some(b) => Some(b@),
                None => None,
            },
            version: self.version@,
            depends: texts(self.depends@),
            file_name: self.file_name@,
            compressed_size: self.compressed_size,
        }
    }
}

/// Copies a list of strings.
pub fn copy_strings(strings: &Vec<String>) -> (copy: Vec<String>)
    ensures
        texts(copy@) == texts(strings@),
{
    let mut copy: Vec<String> = Vec::new();
    let mut i: usize = 0;
    while i < strings.len()
        invariant
            i <= strings.len(),
            copy.len() == i,
            forall|k: int| 0 <= k < i ==> copy@[k]@ == strings@[k]@,
        decreases strings.len() - i,
    {
        copy.push(strings[i].clone());
        i += 1;
    }
    assert(texts(copy@) =~= texts(strings@));
    copy
}

impl Clone for PackageMetadata {
    fn clone(&self) -> (copy: Self)
        ensures
            copy@ == self@,
    {
        PackageMetadata {
            name: self.name.clone(),
            base: match &self.base {
                Some(b) => Some(b.clone()),
                None => None,
            },
            version: self.version.clone(),
            depends: copy_strings(&self.depends),
            file_name: self.file_name.clone(),
            compressed_size: self.compressed_size,
        }
    }
}

/// No two records of `packages` have the same name.
pub open spec fn distinct_names(packages: Seq<PackageView>) -> bool {
    forall|i: int, j: int|
        0 <= i < j < packages.len() ==> (#[trigger] packages[i]).name != (#[trigger] packages[j]).name
}

/// `i` is the position of the first record of `packages` that `wanted` accepts.
pub open spec fn is_first_match(
    packages: Seq<PackageView>,
    wanted: spec_fn(PackageView) -> bool,
    i: int,
) -> bool {
    &&& 0 <= i < packages.len()
    &&& wanted(packages[i])
    &&& forall|j: int| 0 <= j < i ==> !wanted(#[trigger] packages[j])
}

/// The position of the first record of `packages` that `wanted` accepts, if
/// there is one.
pub open spec fn first_position(
    packages: Seq<PackageView>,
    wanted: spec_fn(PackageView) -> bool,
) -> Option<int> {
    if exists|i: int| is_first_match(packages, wanted, i) {
        Some(choose|i: int| is_first_match(packages, wanted, i))
    } else {
        None
    }
}

/// The first record of `packages` that `wanted` accepts, if there is one.
pub open spec fn first_match(
    packages: Seq<PackageView>,
    wanted: spec_fn(PackageView) -> bool,
) -> Option<PackageView> {
    match first_position(packages, wanted) {
        Some(i) => Some(packages[i]),
        None => None,
    }
}

/// The record named `name`, if `packages` has one.
pub open spec fn lookup_spec(packages: Seq<PackageView>, name: Seq<char>) -> Option<PackageView> {
    first_match(packages, |p: PackageView| p.name == name)
}

/// The key under which a record is found by name and version.
pub open spec fn versioned_name(p: PackageView) -> Seq<char> {
    p.name + seq!['-'] + p.version
}

/// The record that a root name stands for: the first whose base name it is;
/// failing that, the one it names; failing that, the first whose name and
/// version, joined by `-`, it spells.
pub open spec fn root_spec(packages: Seq<PackageView>, name: Seq<char>) -> Option<PackageView> {
    let by_base = first_match(packages, |p: PackageView| p.base == Some(name));
    let by_name = lookup_spec(packages, name);
    let by_version = first_match(packages, |p: PackageView| versioned_name(p) == name);
    if by_base is Some {
        by_base
    } else if by_name is Some {
        by_name
    } else {
        by_version
    }
}

/// What `packages` becomes when `package` is added: a record of the same
/// name is replaced where it stands, and a new name goes to the end.
pub open spec fn insert_spec(packages: Seq<PackageView>, package: PackageView) -> Seq<PackageView> {
    match first_position(packages, |p: PackageView| p.name == package.name) {
        Some(i) => packages.update(i, package),
        None => packages.push(package),
    }
}

/// A first match is the only first match.
pub proof fn lemma_first_match_found(
    packages: Seq<PackageView>,
    wanted: spec_fn(PackageView) -> bool,
    i: int,
)
    requires
        is_first_match(packages, wanted, i),
    ensures
        first_position(packages, wanted) == Some(i),
        first_match(packages, wanted) == Some(packages[i]),
{
    let c = choose|k: int| is_first_match(packages, wanted, k);
    assert(is_first_match(packages, wanted, c));
    if c < i {
        assert(!wanted(packages[c]));
    }
    if i < c {
        assert(!wanted(packages[i]));
    }
}

/// Where no record is accepted there is no first match.
pub proof fn lemma_first_match_absent(
    packages: Seq<PackageView>,
    wanted: spec_fn(PackageView) -> bool,
)
    requires
        forall|j: int| 0 <= j < packages.len() ==> !wanted(#[trigger] packages[j]),
    ensures
        first_position(packages, wanted) is None,
        first_match(packages, wanted) is None,
{
    assert forall|i: int| !is_first_match(packages, wanted, i) by {
        if 0 <= i < packages.len() {
            assert(!wanted(packages[i]));
        }
    }
}

/// What a lookup that succeeds says of the record and of the index.
pub proof fn lemma_lookup_some(packages: Seq<PackageView>, name: Seq<char>)
    requires
        lookup_spec(packages, name) is Some,
    ensures
        lookup_spec(packages, name)->0.name == name,
        packages.contains(lookup_spec(packages, name)->0),
{
    let wanted = |p: PackageView| p.name == name;
    let c = choose|i: int| is_first_match(packages, wanted, i);
    assert(is_first_match(packages, wanted, c));
    assert(packages[c] == lookup_spec(packages, name)->0);
}

/// In an index without repeated names, every record is the one its name finds.
pub proof fn lemma_lookup_member(packages: Seq<PackageView>, i: int)
    requires
        distinct_names(packages),
        0 <= i < packages.len(),
    ensures
        lookup_spec(packages, packages[i].name) == Some(packages[i]),
{
    let name = packages[i].name;
    let wanted = |p: PackageView| p.name == name;
    assert forall|j: int| 0 <= j < i implies !wanted(#[trigger] packages[j]) by {
        assert(packages[j].name != packages[i].name);
    }
    assert(is_first_match(packages, wanted, i));
    lemma_first_match_found(packages, wanted, i);
}

/// An ordered collection of package records in which no name occurs twice.
pub struct PackageIndex {
    packages: Vec<PackageMetadata>,
}

/// The values of a sequence of records.
pub open spec fn views(packages: Seq<PackageMetadata>) -> Seq<PackageView> {
    Seq::new(packages.len(), |i: int| packages[i]@)
}

impl View for PackageIndex {
    type V = Seq<PackageView>;

    closed spec fn view(&self) -> Seq<PackageView> {
        views(self.packages@)
    }
}

impl PackageIndex {
    #[verifier::type_invariant]
    spec fn well_formed(&self) -> bool {
        distinct_names(views(self.packages@))
    }

    /// An index without records.
    pub fn new() -> (index: PackageIndex)
        ensures
            index@ == Seq::<PackageView>::empty(),
    {
        let index = PackageIndex { packages: Vec::new() };
        assert(index@ =~= Seq::<PackageView>::empty());
        index
    }

    /// The number of records.
    pub fn len(&self) -> (n: usize)
        ensures
            n == self@.len(),
            distinct_names(self@),
    {
        proof {
            use_type_invariant(self);
        }
        self.packages.len()
    }

    /// The record at position `i`.
    pub fn get(&self, i: usize) -> (package: &PackageMetadata)
        requires
            i < self@.len(),
        ensures
            package@ == self@[i as int],
    {
        &self.packages[i]
    }

    /// Position of the record named `name`.
    fn position(&self, name: &String) -> (found: Option<usize>)
        ensures
            match found {
                Some(i) => is_first_match(self@, |p: PackageView| p.name == name@, i as int),
                None => forall|j: int| 0 <= j < self@.len() ==> (#[trigger] self@[j]).name != name@,
            },
    {
        let mut i: usize = 0;
        while i < self.packages.len()
            invariant
                i <= self.packages.len(),
                forall|j: int| 0 <= j < i ==> (#[trigger] self@[j]).name != name@,
            decreases self.packages.len() - i,
        {
            if self.packages[i].name == *name {
                return Some(i);
            }
            i += 1;
        }
        None
    }

    /// Adds a record. One of the same name is replaced where it stands; a
    /// new name goes to the end.
    pub fn insert(&mut self, package: PackageMetadata)
        ensures
            final(self)@ == insert_spec(old(self)@, package@),
    {
        proof {
            use_type_invariant(&*self);
        }
        let ghost wanted = |p: PackageView| p.name == package@.name;
        let ghost before = self@;
        let place = self.position(&package.name);
        let mut packages: Vec<PackageMetadata> = Vec::new();
        std::mem::swap(&mut self.packages, &mut packages);
        match place {
            Some(i) => {
                proof {
                    lemma_first_match_found(before, wanted, i as int);
                }
                packages.set(i, package);
                assert(views(packages@) =~= before.update(i as int, package@));
            },
            None => {
                proof {
                    lemma_first_match_absent(before, wanted);
                }
                packages.push(package);
                assert(views(packages@) =~= before.push(package@));
            },
        }
        self.packages = packages;
    }

    /// The record named `name`.
    pub fn lookup(&self, name: &str) -> (found: Option<&PackageMetadata>)
        ensures
            match found {
                Some(package) => lookup_spec(self@, name@) == Some(package@),
                None => lookup_spec(self@, name@) is None,
            },
    {
        let key: String = name.to_owned();
        let ghost wanted = |p: PackageView| p.name == name@;
        match self.position(&key) {
            Some(i) => {
                proof {
                    lemma_first_match_found(self@, wanted, i as int);
                }
                Some(&self.packages[i])
            },
            None => {
                proof {
                    lemma_first_match_absent(self@, wanted);
                }
                None
            },
        }
    }

    /// The first record with base name `name`.
    fn by_base(&self, name: &String) -> (found: Option<&PackageMetadata>)
        ensures
            match found {
                Some(package) => first_match(self@, |p: PackageView| p.base == Some(name@)) == Some(
                    package@,
                ),
                None => first_match(self@, |p: PackageView| p.base == Some(name@)) is None,
            },
    {
        let mut i: usize = 0;
        while i < self.packages.len()
            invariant
                i <= self.packages.len(),
                forall|j: int| 0 <= j < i ==> (#[trigger] self@[j]).base != Some(name@),
            decreases self.packages.len() - i,
        {
            let hit = match &self.packages[i].base {
                Some(b) => *b == *name,
                None => false,
            };
            assert(self@[i as int] == self.packages@[i as int]@);
            if hit {
                proof {
                    lemma_first_match_found(
                        self@,
                        |p: PackageView| p.base == Some(name@),
                        i as int,
                    );
                }
                return Some(&self.packages[i]);
            }
            i += 1;
        }
        proof {
            lemma_first_match_absent(self@, |p: PackageView| p.base == Some(name@));
        }
        None
    }

    /// The first record whose name and version, joined by `-`, spell `name`.
    fn by_versioned_name(&self, name: &String) -> (found: Option<&PackageMetadata>)
        ensures
            match found {
                Some(package) => first_match(self@, |p: PackageView| versioned_name(p) == name@)
                    == Some(package@),
                None => first_match(self@, |p: PackageView| versioned_name(p) == name@) is None,
            },
    {
        let mut i: usize = 0;
        while i < self.packages.len()
            invariant
                i <= self.packages.len(),
                forall|j: int| 0 <= j < i ==> versioned_name(#[trigger] self@[j]) != name@,
            decreases self.packages.len() - i,
        {
            let key: String = self.packages[i].name.clone().concat("-").concat(
                self.packages[i].version.as_str(),
            );
            proof {
                reveal_strlit("-");
                assert("-"@ =~= seq!['-']);
                assert(self@[i as int] == self.packages@[i as int]@);
                assert(key@ == versioned_name(self@[i as int]));
            }
            if key == *name {
                proof {
                    lemma_first_match_found(
                        self@,
                        |p: PackageView| versioned_name(p) == name@,
                        i as int,
                    );
                }
                return Some(&self.packages[i]);
            }
            i += 1;
        }
        proof {
            lemma_first_match_absent(self@, |p: PackageView| versioned_name(p) == name@);
        }
        None
    }

    /// The record that a root name stands for: found by base name, else by
    /// name, else by name and version.
    pub fn root(&self, name: &str) -> (found: Option<&PackageMetadata>)
        ensures
            match found {
                Some(package) => root_spec(self@, name@) == Some(package@),
                None => root_spec(self@, name@) is None,
            },
    {
        let key: String = name.to_owned();
        match self.by_base(&key) {
            Some(package) => Some(package),
            None => match self.lookup(name) {
                Some(package) => Some(package),
                None => self.by_versioned_name(&key),
            },
        }
    }
}

} // verus!
