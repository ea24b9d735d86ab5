//! Absolute directory paths, held as their sequence of components.
use vstd::prelude::*;

verus! {

/// An absolute, normalized directory path. The filesystem root has no
/// components; each component is the name of one directory below the one
/// before it.
pub struct DirPath {
    components: Vec<String>,
}

impl View for DirPath {
    type V = Seq<Seq<char>>;

    closed spec fn view(&self) -> Seq<Seq<char>> {
        self.components@.map_values(|c: String| c@)
    }
}

/// Copies a sequence of strings, keeping each one's value.
fn copy_strings(v: &Vec<String>) -> (r: Vec<String>)
    ensures
        r@.len() == v@.len(),
        r@.map_values(|c: String| c@) == v@.map_values(|c: String| c@),
{
    let mut r: Vec<String> = Vec::new();
    let mut i: usize = 0;
    while i < v.len()
        invariant
            i <= v@.len(),
            r@.len() == i,
            r@.map_values(|c: String| c@) == v@.take(i as int).map_values(|c: String| c@),
        decreases v.len() - i,
    {
        let ghost before = r@;
        let c = v[i].clone();
        assert(c@ == v@[i as int]@);
        r.push(c);
        assert(v@.take(i + 1) =~= v@.take(i as int).push(v@[i as int]));
        assert(r@ =~= before.push(c));
        assert forall|k: int| 0 <= k < i implies #[trigger] r@[k]@ == v@[k]@ by {
            assert(before.map_values(|c: String| c@)[k] == v@.take(i as int).map_values(
                |c: String| c@,
            )[k]);
        }
        assert(r@.map_values(|c: String| c@) =~= v@.take(i + 1).map_values(|c: String| c@));
        i += 1;
    }
    assert(v@.take(i as int) =~= v@);
    r
}

impl DirPath {
    /// The filesystem root.
    pub fn root() -> (p: DirPath)
        ensures
            p@ == Seq::<Seq<char>>::empty(),
    {
        let p = DirPath { components: Vec::new() };
        assert(p@ =~= Seq::<Seq<char>>::empty());
        p
    }

    /// The path whose components, from the root down, are `components`.
    pub fn from_components(components: Vec<String>) -> (p: DirPath)
        ensures
            p@ == components@.map_values(|c: String| c@),
    {
        DirPath { components }
    }

    /// The components from the root down.
    pub fn components(&self) -> (r: &Vec<String>)
        ensures
            r@.map_values(|c: String| c@) == self@,
    {
        &self.components
    }

    pub fn is_root(&self) -> (r: bool)
        ensures
            r == (self@.len() == 0),
    {
        self.components.len() == 0
    }

    /// A copy with the same value.
    pub fn duplicate(&self) -> (r: DirPath)
        ensures
            r@ == self@,
    {
        DirPath { components: copy_strings(&self.components) }
    }

    /// The directory that holds this one; none for the root.
    pub fn parent(&self) -> (r: Option<DirPath>)
        ensures
            self@.len() == 0 ==> r is None,
            self@.len() > 0 ==> (r matches Some(p) && p@ == self@.drop_last()),
    {
        if self.components.len() == 0 {
            None
        } else {
            let mut components = copy_strings(&self.components);
            let ghost before = components@;
            components.pop();
            assert(components@.map_values(|c: String| c@) =~= self@.drop_last()) by {
                assert(components@ =~= before.drop_last());
                assert(before.map_values(|c: String| c@) == self@);
            }
            Some(DirPath { components })
        }
    }

    /// The directory named `name` inside this one.
    pub fn join(&self, name: &String) -> (r: DirPath)
        ensures
            r@ == self@.push(name@),
    {
        let mut components = copy_strings(&self.components);
        let ghost before = components@;
        components.push(name.clone());
        assert(components@.map_values(|c: String| c@) =~= self@.push(name@)) by {
            assert(components@ =~= before.push(*name));
            assert(before.map_values(|c: String| c@) == self@);
        }
        DirPath { components }
    }

    /// The name of this directory inside its parent; none for the root.
    pub fn last_name(&self) -> (r: Option<&String>)
        ensures
            self@.len() == 0 ==> r is None,
            self@.len() > 0 ==> (r matches Some(n) && n@ == self@.last()),
    {
        if self.components.len() == 0 {
            None
        } else {
            Some(&self.components[self.components.len() - 1])
        }
    }
}

} // verus!
