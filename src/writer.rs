use vstd::prelude::*;

use crate::expr::{
    binary_symbol, lemma_render_prefix, module_prefix, module_wf, render, unary_name, Expr,
    ExprError, ExprHandle, Module, ModuleView,
};

verus! {

/// Handles whose text a cache holds, in the order they were rendered.
pub open spec fn cached_handles(c: Seq<(nat, Seq<char>)>) -> Seq<nat> {
    c.map_values(|e: (nat, Seq<char>)| e.0)
}

/// The handles a cache entry's expression refers to are cached too.
pub open spec fn children_cached(c: Seq<(nat, Seq<char>)>, m: ModuleView, h: nat) -> bool {
    match m.exprs[h as int] {
        Expr::Binary { op, left, right } => cached_handles(c).contains(left@)
            && cached_handles(c).contains(right@),
        Expr::Unary { op, expr } => cached_handles(c).contains(expr@),
        _ => true,
    }
}

/// A cache is valid for a module when each entry holds the rendered text of
/// a handle of the module, no handle has two entries, and the children of a
/// cached expression are cached as well.
pub open spec fn cache_valid(c: Seq<(nat, Seq<char>)>, m: ModuleView) -> bool {
    &&& cached_handles(c).no_duplicates()
    &&& forall|i: int|
        0 <= i < c.len() ==> {
            &&& (#[trigger] c[i]).0 < m.exprs.len()
            &&& c[i].1 == render(m, c[i].0)
            &&& children_cached(c, m, c[i].0)
        }
}

/// A cache stays valid when expressions or properties are appended to its module.
pub proof fn lemma_cache_valid_prefix(c: Seq<(nat, Seq<char>)>, a: ModuleView, b: ModuleView)
    requires
        cache_valid(c, a),
        module_wf(a),
        module_prefix(a, b),
    ensures
        cache_valid(c, b),
{
    assert forall|i: int| 0 <= i < c.len() implies {
        &&& (#[trigger] c[i]).0 < b.exprs.len()
        &&& c[i].1 == render(b, c[i].0)
        &&& children_cached(c, b, c[i].0)
    } by {
        lemma_render_prefix(a, b, c[i].0);
        assert(a.exprs[c[i].0 as int] == b.exprs[c[i].0 as int]);
    }
}

/// Context of one code generation pass: renders expressions to shader text,
/// rendering each handle at most once, and collects the generated code.
pub struct ShaderWriter {
    cache: Vec<(ExprHandle, String)>,
    main_code: String,
}

impl ShaderWriter {
    /// Entries of the cache, as handle index and rendered text, oldest first.
    pub closed spec fn cached(&self) -> Seq<(nat, Seq<char>)> {
        self.cache@.map_values(|e: (ExprHandle, String)| (e.0@, e.1@))
    }

    /// Code collected so far.
    pub closed spec fn code(&self) -> Seq<char> {
        self.main_code@
    }

    /// Create a context for a new pass, with an empty cache and no code.
    pub fn new() -> (r: Self)
        ensures
            r.cached() == Seq::<(nat, Seq<char>)>::empty(),
            r.code() == Seq::<char>::empty(),
    {
        let r = ShaderWriter { cache: Vec::new(), main_code: String::new() };
        assert(r.cached() =~= Seq::<(nat, Seq<char>)>::empty());
        r
    }

    /// Number of expressions rendered in this pass so far.
    pub fn rendered_count(&self) -> (r: usize)
        ensures
            r == self.cached().len(),
    {
        self.cache.len()
    }

    /// Get the code collected so far.
    pub fn main_code(&self) -> (r: &str)
        ensures
            r@ == self.code(),
    {
        self.main_code.as_str()
    }

    /// Append text to the collected code.
    pub fn append_code(&mut self, text: &str)
        ensures
            final(self).code() == old(self).code() + text@,
            final(self).cached() == old(self).cached(),
    {
        self.main_code.append(text);
    }

    fn lookup(&self, handle: ExprHandle) -> (r: Option<String>)
        ensures
            r is Some <==> cached_handles(self.cached()).contains(handle@),
            r matches Some(s) ==> exists|i: int|
                0 <= i < self.cached().len() && #[trigger] self.cached()[i] == (handle@, s@),
    {
        let mut i: usize = 0;
        while i < self.cache.len()
            invariant
                0 <= i <= self.cache.len(),
                forall|k: int| 0 <= k < i ==> self.cached()[k].0 != handle@,
            decreases self.cache.len() - i,
        {
            if self.cache[i].0 == handle {
                proof {
                    ExprHandle::lemma_view_eq(self.cache[i as int].0, handle);
                }
                assert(self.cached()[i as int] == (handle@, self.cache[i as int].1@));
                assert(cached_handles(self.cached())[i as int] == handle@);
                return Some(self.cache[i].1.clone());
            }
            proof {
                ExprHandle::lemma_view_eq(self.cache[i as int].0, handle);
            }
            i = i + 1;
        }
        proof {
            if cached_handles(self.cached()).contains(handle@) {
                let k = choose|k: int|
                    0 <= k < cached_handles(self.cached()).len() && cached_handles(
                        self.cached(),
                    )[k] == handle@;
                assert(self.cached()[k].0 == handle@);
            }
        }
        None
    }

    /// Render an expression to shader text.
    ///
    /// A handle that is already cached is answered from the cache, without
    /// rendering it again; otherwise its children are rendered (each through
    /// the cache) and its text is added to the cache.
    pub fn eval(&mut self, module: &Module, handle: ExprHandle) -> (r: Result<String, ExprError>)
        requires
            cache_valid(old(self).cached(), module@),
        ensures
            final(self).code() == old(self).code(),
            (r is Err) == (handle@ >= module@.exprs.len()),
            r matches Err(e) ==> e is InvalidExprHandleError && *final(self) == *old(self),
            r matches Ok(s) ==> {
                &&& s@ == render(module@, handle@)
                &&& cache_valid(final(self).cached(), module@)
                &&& cached_handles(final(self).cached()).contains(handle@)
                &&& final(self).cached().len() >= old(self).cached().len()
                &&& final(self).cached().subrange(0, old(self).cached().len() as int)
                    == old(self).cached()
                &&& (cached_handles(old(self).cached()).contains(handle@) ==> final(self).cached()
                    == old(self).cached())
                &&& forall|k: int|
                    old(self).cached().len() <= k < final(self).cached().len() ==> (
                    #[trigger] final(self).cached()[k]).0 <= handle@
            },
        decreases handle@,
    {
        proof {
            use_type_invariant(module);
        }
        if !module.is_valid(handle) {
            return Err(ExprError::InvalidExprHandleError(String::from_str("unknown expression handle")));
        }
        match self.lookup(handle) {
            Some(s) => {
                proof {
                    let i = choose|i: int|
                        0 <= i < self.cached().len() && #[trigger] self.cached()[i] == (
                        handle@,
                        s@,
                    );
                    assert(self.cached().subrange(0, self.cached().len() as int) =~= self.cached());
                }
                return Ok(s);
            },
            None => {},
        }
        let ghost m = module@;
        let ghost c0 = self.cached();
        assert(crate::expr::expr_wf(m, handle@ as int));
        let text = match module.get(handle) {
            Expr::Literal(v) => v.to_wgsl_string(),
            Expr::Attribute(a) => {
                let mut s = String::from_str("particle.");
                s.append(a.name());
                s
            },
            Expr::BuiltIn(op) => op.to_wgsl_string(),
            Expr::Property(p) => {
                let mut s = String::from_str("properties.");
                s.append(module.property_name(p));
                s
            },
            Expr::Binary { op, left, right } => {
                let l = match self.eval(module, left) {
                    Ok(s) => s,
                    Err(e) => return Err(e),
                };
                let ghost c1 = self.cached();
                let r = match self.eval(module, right) {
                    Ok(s) => s,
                    Err(e) => return Err(e),
                };
                proof {
                    let c2 = self.cached();
                    assert(c2.subrange(0, c1.len() as int) == c1);
                    if cached_handles(c1).contains(left@) {
                        let j = choose|j: int| 0 <= j < cached_handles(c1).len() && cached_handles(c1)[j] == left@;
                        assert(c2[j] == c1[j]);
                        assert(cached_handles(c2)[j] == left@);
                    }
                    assert forall|k: int| c0.len() <= k < c2.len() implies (#[trigger] c2[k]).0
                        < handle@ by {
                        if k < c1.len() {
                            assert(c2[k] == c1[k]);
                        }
                    }
                    assert forall|k: int| 0 <= k < c0.len() implies #[trigger] c2[k] == c0[k] by {
                        assert(c1[k] == c0[k]);
                        assert(c2[k] == c1[k]);
                    }
                    assert(c2.subrange(0, c0.len() as int) =~= c0);
                }
                let mut s = String::from_str("(");
                s.append(l.as_str());
                s.append(") ");
                s.append(op.symbol());
                s.append(" (");
                s.append(r.as_str());
                s.append(")");
                assert(s@ =~= render(m, handle@));
                s
            },
            Expr::Unary { op, expr } => {
                let x = match self.eval(module, expr) {
                    Ok(s) => s,
                    Err(e) => return Err(e),
                };
                proof {
                    let c1 = self.cached();
                    assert forall|k: int| c0.len() <= k < c1.len() implies (#[trigger] c1[k]).0
                        < handle@ by {}
                }
                let mut s = String::from_str(op.name());
                s.append("(");
                s.append(x.as_str());
                s.append(")");
                assert(s@ =~= render(m, handle@));
                s
            },
        };
        let ghost c_mid = self.cached();
        proof {
            assert(!cached_handles(c_mid).contains(handle@)) by {
                if cached_handles(c_mid).contains(handle@) {
                    let j = choose|j: int| 0 <= j < cached_handles(c_mid).len() && cached_handles(c_mid)[j] == handle@;
                    if j < c0.len() {
                        assert(c_mid[j] == c0[j]);
                        assert(cached_handles(c0)[j] == handle@);
                    } else {
                        assert(c_mid[j].0 < handle@);
                    }
                }
            }
        }
        self.cache.push((handle, text.clone()));
        proof {
            let c = self.cached();
            assert(c =~= c_mid.push((handle@, text@)));
            assert(cached_handles(c) =~= cached_handles(c_mid).push(handle@));
            assert(cached_handles(c)[c_mid.len() as int] == handle@);
            assert forall|h: nat| cached_handles(c_mid).contains(h) implies cached_handles(c).contains(h) by {
                let j = choose|j: int| 0 <= j < cached_handles(c_mid).len() && cached_handles(c_mid)[j] == h;
                assert(cached_handles(c)[j] == h);
            }
            assert(c.subrange(0, c0.len() as int) =~= c0);
        }
        Ok(text)
    }
}

} // verus!
