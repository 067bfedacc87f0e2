//! The identity collaborator: which role each principal carries.

use vstd::prelude::*;

verus! {

/// One principal together with its role.
pub struct RoleBinding {
    pub principal: String,
    pub role: String,
}

/// The mathematical content of a role binding.
pub ghost struct BindingView {
    pub principal: Seq<char>,
    pub role: Seq<char>,
}

impl View for RoleBinding {
    type V = BindingView;

    open spec fn view(&self) -> BindingView {
        BindingView { principal: self.principal@, role: self.role@ }
    }
}

/// The index of the binding for `principal`, or -1 when absent.
pub open spec fn find_binding(bindings: Seq<BindingView>, principal: Seq<char>) -> int
    decreases bindings.len(),
{
    if bindings.len() == 0 {
        -1
    } else if bindings.last().principal == principal {
        bindings.len() - 1
    } else {
        find_binding(bindings.drop_last(), principal)
    }
}

/// The role bound to `principal`, if any.
pub open spec fn spec_role_of(bindings: Seq<BindingView>, principal: Seq<char>) -> Option<
    Seq<char>,
> {
    let i = find_binding(bindings, principal);
    if i >= 0 {
        Some(bindings[i].role)
    } else {
        None
    }
}

/// No two bindings name the same principal.
pub open spec fn principals_unique(bindings: Seq<BindingView>) -> bool {
    forall|i: int, j: int|
        #![trigger bindings[i], bindings[j]]
        0 <= i < j < bindings.len() ==> bindings[i].principal != bindings[j].principal
}

/// What `find_binding` finds: -1 means no binding names the principal; a
/// non-negative result is the last index naming it.
pub proof fn lemma_find_binding(bindings: Seq<BindingView>, principal: Seq<char>)
    ensures
        find_binding(bindings, principal) == -1 ==> forall|j: int|
            0 <= j < bindings.len() ==> (#[trigger] bindings[j]).principal != principal,
        find_binding(bindings, principal) != -1 ==> {
            &&& 0 <= find_binding(bindings, principal) < bindings.len()
            &&& bindings[find_binding(bindings, principal)].principal == principal
        },
    decreases bindings.len(),
{
    if bindings.len() > 0 {
        lemma_find_binding(bindings.drop_last(), principal);
        assert(forall|j: int|
            0 <= j < bindings.len() - 1 ==> bindings[j] == bindings.drop_last()[j]);
    }
}

/// The bindings after binding `principal` to `role`: replaced in place when
/// the principal is known, appended otherwise.
pub open spec fn spec_bind(
    bindings: Seq<BindingView>,
    principal: Seq<char>,
    role: Seq<char>,
) -> Seq<BindingView> {
    let i = find_binding(bindings, principal);
    let b = BindingView { principal, role };
    if i >= 0 {
        bindings.update(i, b)
    } else {
        bindings.push(b)
    }
}

/// The identity directory: every known principal with its role. Stands in
/// for the identity collaborator that resolution consults.
pub struct IdentityDirectory {
    bindings: Vec<RoleBinding>,
}

impl IdentityDirectory {
    /// The stored bindings.
    pub closed spec fn bindings(self) -> Seq<BindingView> {
        self.bindings@.map_values(|b: RoleBinding| b@)
    }

    /// The role bound to `principal`, if any.
    pub open spec fn role_of(self, principal: Seq<char>) -> Option<Seq<char>> {
        spec_role_of(self.bindings(), principal)
    }

    /// Well-formedness: one binding per principal.
    pub open spec fn wf(self) -> bool {
        principals_unique(self.bindings())
    }

    /// An empty directory.
    pub fn new() -> (d: Self)
        ensures
            d.wf(),
            d.bindings() == Seq::<BindingView>::empty(),
    {
        let d = IdentityDirectory { bindings: Vec::new() };
        proof {
            assert(d.bindings() =~= Seq::<BindingView>::empty());
        }
        d
    }

    /// Binds `principal` to `role`, replacing any earlier binding.
    pub fn set_role(&mut self, principal: &str, role: &str)
        requires
            old(self).wf(),
        ensures
            final(self).wf(),
            final(self).bindings() == spec_bind(old(self).bindings(), principal@, role@),
    {
        let ghost views = self.bindings@.map_values(|b: RoleBinding| b@);
        proof {
            assert(views.take(self.bindings@.len() as int) =~= views);
            lemma_find_binding(views, principal@);
        }
        let b = RoleBinding { principal: principal.to_owned(), role: role.to_owned() };
        let mut i: usize = self.bindings.len();
        while i > 0
            invariant
                0 <= i <= self.bindings@.len(),
                views == self.bindings@.map_values(|b: RoleBinding| b@),
                views == old(self).bindings(),
                old(self).wf(),
                views.len() == self.bindings@.len(),
                b@ == (BindingView { principal: principal@, role: role@ }),
                forall|j: int| 0 <= j < self.bindings@.len() ==> views[j] == self.bindings@[j]@,
                find_binding(views, principal@) == find_binding(views.take(i as int), principal@),
            decreases i,
        {
            let j = i - 1;
            proof {
                assert(views.take(i as int).last() == views[j as int]);
                assert(views.take(i as int).drop_last() =~= views.take(j as int));
            }
            if crate::text::str_eq(self.bindings[j].principal.as_str(), principal) {
                proof {
                    assert(find_binding(views, principal@) == j as int);
                }
                self.bindings[j] = b;
                proof {
                    let u = views.update(j as int, BindingView { principal: principal@, role: role@ });
                    assert(self.bindings@.map_values(|b: RoleBinding| b@) =~= u);
                    assert(u =~= spec_bind(old(self).bindings(), principal@, role@));
                    assert forall|x: int, y: int|
                        0 <= x < y < u.len() implies u[x].principal != u[y].principal by {
                        assert(views[x].principal != views[y].principal);
                        if x != j {
                            assert(u[x] == views[x]);
                        }
                        if y != j {
                            assert(u[y] == views[y]);
                        }
                        assert(views[j as int].principal == principal@);
                    }
                }
                return ;
            }
            i = j;
        }
        proof {
            assert(views.take(0) =~= Seq::<BindingView>::empty());
        }
        self.bindings.push(b);
        proof {
            assert(self.bindings@.map_values(|b: RoleBinding| b@) =~= spec_bind(
                old(self).bindings(),
                principal@,
                role@,
            ));
        }
    }

    /// Looks the principal's role up; `None` when the principal is unknown.
    pub fn get_role(&self, principal: &str) -> (r: Option<String>)
        ensures
            match r {
                Some(role) => self.role_of(principal@) == Some(role@),
                None => self.role_of(principal@) is None,
            },
    {
        let ghost views = self.bindings@.map_values(|b: RoleBinding| b@);
        proof {
            assert(views.take(self.bindings@.len() as int) =~= views);
        }
        let mut i: usize = self.bindings.len();
        while i > 0
            invariant
                0 <= i <= self.bindings@.len(),
                views == self.bindings@.map_values(|b: RoleBinding| b@),
                views.len() == self.bindings@.len(),
                forall|j: int| 0 <= j < self.bindings@.len() ==> views[j] == self.bindings@[j]@,
                find_binding(views, principal@) == find_binding(views.take(i as int), principal@),
            decreases i,
        {
            let j = i - 1;
            proof {
                assert(views.take(i as int).last() == views[j as int]);
                assert(views.take(i as int).drop_last() =~= views.take(j as int));
            }
            if crate::text::str_eq(self.bindings[j].principal.as_str(), principal) {
                return Some(self.bindings[j].role.clone());
            }
            i = j;
        }
        proof {
            assert(views.take(0) =~= Seq::<BindingView>::empty());
        }
        None
    }

    /// Every known principal, in binding order.
    pub fn all_principals(&self) -> (r: Vec<String>)
        ensures
            r@.map_values(|s: String| s@) == self.bindings().map_values(
                |b: BindingView| b.principal,
            ),
    {
        let ghost views = self.bindings@.map_values(|b: RoleBinding| b@);
        let mut r: Vec<String> = Vec::new();
        proof {
            assert(r@.map_values(|s: String| s@) =~= views.take(0).map_values(
                |b: BindingView| b.principal,
            ));
        }
        let mut i: usize = 0;
        while i < self.bindings.len()
            invariant
                0 <= i <= self.bindings@.len(),
                views == self.bindings@.map_values(|b: RoleBinding| b@),
                views.len() == self.bindings@.len(),
                forall|j: int| 0 <= j < self.bindings@.len() ==> views[j] == self.bindings@[j]@,
                r@.map_values(|s: String| s@) =~= views.take(i as int).map_values(
                    |b: BindingView| b.principal,
                ),
            decreases self.bindings@.len() - i,
        {
            let ghost prev = r@;
            r.push(self.bindings[i].principal.clone());
            proof {
                assert(views.take(i + 1).drop_last() =~= views.take(i as int));
                assert(r@.map_values(|s: String| s@) =~= prev.map_values(|s: String| s@).push(
                    views[i as int].principal,
                ));
                assert(r@.map_values(|s: String| s@) =~= views.take(i + 1).map_values(
                    |b: BindingView| b.principal,
                ));
            }
            i += 1;
        }
        proof {
            assert(views.take(self.bindings@.len() as int) =~= views);
        }
        r
    }
}

} // verus!
