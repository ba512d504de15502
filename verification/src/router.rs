//! Method dispatch: the capability the transport calls into, and the
//! reference implementation mapping method names to handlers.

use vstd::prelude::*;
use vstd::string::*;
use crate::json::Json;

verus! {

/// The dispatch capability: the contract between the transport and the
/// application logic.  An implementation handles one method call and
/// returns the result, or an error message of its choosing.
pub trait ProprioHandler {
    fn execute(&self, method: &str, params: Option<Json>) -> Result<Json, String>;
}

/// One registered handler: what a [`Router`] invokes for its method.
pub trait ToolHandler {
    fn call(&self, params: Option<Json>) -> Result<Json, String>;
}

/// The error text for a method a router does not know.
pub open spec fn not_found_msg(method: Seq<char>) -> Seq<char> {
    "Method '"@ + method + "' not found in Router"@
}

/// The reference dispatch implementation: a mapping from method names to
/// handlers.  Registration is expected during single-threaded setup, before
/// the transport starts serving.
pub struct Router<H> {
    routes: Vec<(String, H)>,
}

/// The handler bound to the first entry under name `m`, if any.
spec fn first_route<H>(s: Seq<(String, H)>, m: Seq<char>) -> Option<H>
    decreases s.len(),
{
    if s.len() == 0 {
        None
    } else if s[0].0@ == m {
        Some(s[0].1)
    } else {
        first_route(s.drop_first(), m)
    }
}

/// A name is bound in `s` exactly when some entry carries it.
proof fn lemma_first_route<H>(s: Seq<(String, H)>, m: Seq<char>)
    ensures
        (first_route(s, m) is Some) <==> exists|i: int| 0 <= i < s.len() && s[i].0@ == m,
    decreases s.len(),
{
    if s.len() != 0 {
        lemma_first_route(s.drop_first(), m);
        if s[0].0@ == m {
        } else {
            if first_route(s, m) is Some {
                let j = choose|j: int|
                    0 <= j < s.drop_first().len() && s.drop_first()[j].0@ == m;
                assert(s[j + 1].0@ == m);
            }
            if exists|i: int| 0 <= i < s.len() && s[i].0@ == m {
                let i = choose|i: int| 0 <= i < s.len() && s[i].0@ == m;
                assert(s.drop_first()[i - 1].0@ == m);
            }
        }
    }
}

impl<H: ToolHandler> Router<H> {
    /// The handler a method name is mapped to, if any: the latest
    /// registration under that name.
    pub closed spec fn route_of(&self, m: Seq<char>) -> Option<H> {
        first_route(self.routes@, m)
    }

    /// Whether a handler is registered under method name `m`.
    pub open spec fn has_route(&self, m: Seq<char>) -> bool {
        self.route_of(m) is Some
    }

    /// An empty router: no method is known.
    pub fn new() -> (r: Router<H>)
        ensures
            forall|m: Seq<char>| !r.has_route(m),
    {
        Router { routes: Vec::new() }
    }

    /// Registers `handler` under `name`: the name is then mapped to this
    /// very handler, replacing any prior one there, and every other name's
    /// mapping is unchanged.
    pub fn add(&mut self, name: &str, handler: H)
        ensures
            final(self).route_of(name@) == Some(handler),
            forall|m: Seq<char>| m != name@ ==> final(self).route_of(m) == old(self).route_of(m),
    {
        let ghost pre = self.routes@;
        let owned = name.to_owned();
        self.routes.insert(0, (owned, handler));
        proof {
            let post = self.routes@;
            assert(post =~= seq![(owned, handler)] + pre);
            assert(post[0] == (owned, handler));
            assert(first_route(post, name@) == Some(handler));
            assert forall|m: Seq<char>| m != name@ implies first_route(post, m) == first_route(
                pre,
                m,
            ) by {
                assert(post.drop_first() =~= pre);
            }
        }
    }

    /// Looks the method up and runs its handler.  A method with no handler
    /// is answered with an error message naming it; a method with one gets
    /// the handler's own result or error, verbatim.
    #[verifier::loop_isolation(false)]
    pub fn execute(&self, method: &str, params: Option<Json>) -> (r: Result<Json, String>)
        ensures
            !self.has_route(method@) ==> (r matches Err(m) && m@ == not_found_msg(method@)),
    {
        let owned = method.to_owned();
        let mut i: usize = 0;
        while i < self.routes.len()
            invariant
                i <= self.routes@.len(),
                forall|t: int| 0 <= t < i ==> self.routes@[t].0@ != method@,
            decreases self.routes@.len() - i,
        {
            if self.routes[i].0 == owned {
                proof {
                    assert(self.routes@[i as int].0@ == method@);
                    lemma_first_route(self.routes@, method@);
                    assert(self.has_route(method@));
                }
                return self.routes[i].1.call(params);
            }
            i = i + 1;
        }
        let msg = String::from_str("Method '").concat(method).concat("' not found in Router");
        proof {
            lemma_first_route(self.routes@, method@);
            assert(msg@ =~= not_found_msg(method@));
        }
        Err(msg)
    }
}

impl<H: ToolHandler> ProprioHandler for Router<H> {
    fn execute(&self, method: &str, params: Option<Json>) -> Result<Json, String> {
        Router::execute(self, method, params)
    }
}

} // verus!
