use vstd::prelude::*;

verus! {

/// The id of an entry: a path local to the store, and the store's own path
/// where the id is bound to a store.
///
/// Both paths are held as strings, so an id always has a string form:
/// `to_str` cannot fail, as turning a path that is not valid UTF-8 into a
/// string can. Paths are compared as strings, and a path is absolute when
/// it starts with a slash.
#[derive(Debug, PartialEq, Eq)]
pub struct StoreId {
    base: Option<String>,
    id: String,
}

/// What a store id stands for: the optional base path and the local path.
pub struct StoreIdView {
    pub base: Option<Seq<char>>,
    pub id: Seq<char>,
}

impl View for StoreId {
    type V = StoreIdView;

    closed spec fn view(&self) -> StoreIdView {
        StoreIdView {
            base: match self.base {
                Some(b) => Some(b@),
                None => None,
            },
            id: self.id@,
        }
    }
}

/// The views of a sequence of store ids.
pub open spec fn views(v: Seq<StoreId>) -> Seq<StoreIdView> {
    v.map_values(|s: StoreId| s@)
}

/// The local paths of a sequence of store ids.
pub open spec fn ids_of(v: Seq<StoreIdView>) -> Seq<Seq<char>> {
    v.map_values(|s: StoreIdView| s.id)
}

impl Clone for StoreId {
    fn clone(&self) -> (r: StoreId)
        ensures
            r@ == self@,
    {
        self.duplicate()
    }
}

/// A path is absolute when it starts with a slash.
pub open spec fn is_absolute(p: Seq<char>) -> bool {
    p.len() > 0 && p[0] == '/'
}

/// The path `base` joined with the relative path `id`, as a path buffer
/// joins them: no separator is added after an empty base or one that ends
/// in a slash.
pub open spec fn join_path(base: Seq<char>, id: Seq<char>) -> Seq<char> {
    if base.len() == 0 || base.last() == '/' {
        base + id
    } else {
        base + seq!['/'] + id
    }
}

/// Tells whether a path is absolute.
pub fn is_absolute_path(p: &str) -> (r: bool)
    ensures
        r == is_absolute(p@),
{
    let n = p.unicode_len();
    if n == 0 {
        false
    } else {
        p.get_char(0) == '/'
    }
}

impl StoreId {
    /// The id's path as a string: the local path, behind the base where
    /// there is one.
    pub open spec fn path_of(v: StoreIdView) -> Seq<char> {
        match v.base {
            Some(b) => join_path(b, v.id),
            None => v.id,
        }
    }

    /// Makes an id that is bound to no store. An absolute path is refused.
    pub fn new_baseless(id: String) -> (r: Result<StoreId, crate::error::StoreErrorKind>)
        ensures
            is_absolute(id@) <==> r is Err,
            r matches Err(e) ==> e == crate::error::StoreErrorKind::StoreIdLocalPartAbsolute,
            r matches Ok(s) ==> s@ == (StoreIdView { base: None, id: id@ }),
    {
        if is_absolute_path(id.as_str()) {
            Err(crate::error::StoreErrorKind::StoreIdLocalPartAbsolute)
        } else {
            Ok(StoreId { base: None, id })
        }
    }

    /// Makes an id under the given base. An absolute local path is refused.
    pub fn new(base: Option<String>, id: String) -> (r: Result<StoreId, crate::error::StoreErrorKind>)
        ensures
            is_absolute(id@) <==> r is Err,
            r matches Err(e) ==> e == crate::error::StoreErrorKind::StoreIdLocalPartAbsolute,
            r matches Ok(s) ==> s@ == (StoreIdView {
                base: match base {
                    Some(b) => Some(b@),
                    None => None,
                },
                id: id@,
            }),
    {
        match StoreId::new_baseless(id) {
            Ok(s) => Ok(StoreId { base, id: s.id }),
            Err(e) => Err(e),
        }
    }

    /// The local path is never absolute.
    #[verifier::type_invariant]
    closed spec fn wf(&self) -> bool {
        !is_absolute(self.id@)
    }


    /// The same id, bound to no store.
    pub fn without_base(self) -> (r: StoreId)
        ensures
            r@ == (StoreIdView { base: None, id: self@.id }),
    {
        proof {
            use_type_invariant(&self);
        }
        StoreId { base: None, id: self.id }
    }

    /// The same id, bound to the store at `base`.
    pub fn with_base(self, base: String) -> (r: StoreId)
        ensures
            r@ == (StoreIdView { base: Some(base@), id: self@.id }),
    {
        proof {
            use_type_invariant(&self);
        }
        StoreId { base: Some(base), id: self.id }
    }

    /// The local path, without the base.
    pub fn local(&self) -> (r: &String)
        ensures
            r@ == self@.id,
            !is_absolute(r@),
    {
        proof {
            use_type_invariant(self);
        }
        &self.id
    }

    /// The whole path as a string: the base joined with the local path.
    pub fn to_str(&self) -> (r: String)
        ensures
            r@ == StoreId::path_of(self@),
    {
        match &self.base {
            None => self.id.clone(),
            Some(b) => {
                let n = b.as_str().unicode_len();
                if n == 0 || b.as_str().get_char(n - 1) == '/' {
                    b.clone().concat(self.id.as_str())
                } else {
                    proof {
                        reveal_strlit("/");
                    }
                    b.clone().concat("/").concat(self.id.as_str())
                }
            },
        }
    }

    /// A copy of this id.
    pub fn duplicate(&self) -> (r: StoreId)
        ensures
            r@ == self@,
    {
        proof {
            use_type_invariant(&self);
        }
        StoreId { base: self.base.clone(), id: self.id.clone() }
    }

    /// Tells whether two ids are equal: same base and same local path.
    pub fn same_as(&self, other: &StoreId) -> (r: bool)
        ensures
            r == (self@ == other@),
    {
        let same_base = match (&self.base, &other.base) {
            (None, None) => true,
            (Some(a), Some(b)) => {
                let r = *a == *b;
                proof {
                    if a@ == b@ {
                        assert(Some(a@) == Some(b@));
                    }
                }
                r
            },
            _ => false,
        };
        let same_id = self.id == other.id;
        same_base && same_id
    }
}

} // verus!
