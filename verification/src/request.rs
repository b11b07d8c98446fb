//! Request batches: an ordered sequence of named method calls, each with a
//! caller-chosen call id, plus the set of capability URIs the batch uses.
//! Later calls may pass a back-reference to an earlier call's result in
//! place of a literal argument; on the wire a back-reference argument is
//! written under its name prefixed with the reserved `#` character, with an
//! object naming the referenced call, result name and path.  Serialization
//! is canonical and deterministic, and `parse` inverts it exactly (see
//! `lemma_batch_round_trip`).

use crate::json::{Json, JsonV, jview, mviews, views, ser, sp_doc, wf, lemma_parse_ser};
use crate::text::{push_char, push_dec, str_eq, dec_of};
use vstd::prelude::*;
use vstd::string::*;

verus! {

/// A back-reference: take the value at `path` from the result named `name`
/// of the earlier call tagged `result_of`.
pub struct ResultReference {
    pub result_of: String,
    pub name: String,
    pub path: String,
}

/// One argument value: a literal document, or a back-reference.
pub enum Argument {
    Value(Json),
    Reference(ResultReference),
}

/// One method invocation in a batch.
pub struct MethodCall {
    pub name: String,
    pub arguments: Vec<(String, Argument)>,
    pub call_id: String,
}

/// An ordered batch of method calls under construction.
pub struct Request {
    pub using: Vec<String>,
    pub method_calls: Vec<MethodCall>,
    pub next_call_id: u64,
}

/// Model of one argument value.
pub enum ArgumentV {
    Value(JsonV),
    Reference(Seq<char>, Seq<char>, Seq<char>),
}

/// Model of one method invocation.
pub struct MethodCallV {
    pub name: Seq<char>,
    pub arguments: Seq<(Seq<char>, ArgumentV)>,
    pub call_id: Seq<char>,
}

/// Model of a batch: the capability URIs and the ordered calls.
pub struct RequestV {
    pub using: Seq<Seq<char>>,
    pub method_calls: Seq<MethodCallV>,
}

impl View for Argument {
    type V = ArgumentV;

    open spec fn view(&self) -> ArgumentV {
        match self {
            Argument::Value(j) => ArgumentV::Value(jview(*j)),
            Argument::Reference(r) => ArgumentV::Reference(r.result_of@, r.name@, r.path@),
        }
    }
}

/// Models of an argument list, element by element.
pub open spec fn args_v(v: Seq<(String, Argument)>) -> Seq<(Seq<char>, ArgumentV)> {
    Seq::new(
        v.len(),
        |i: int| if 0 <= i < v.len() {
            (v[i].0@, v[i].1@)
        } else {
            (Seq::<char>::empty(), ArgumentV::Value(JsonV::Null))
        },
    )
}

impl View for MethodCall {
    type V = MethodCallV;

    open spec fn view(&self) -> MethodCallV {
        MethodCallV { name: self.name@, arguments: args_v(self.arguments@), call_id: self.call_id@ }
    }
}

/// Models of a call list, element by element.
pub open spec fn calls_v(v: Seq<MethodCall>) -> Seq<MethodCallV> {
    Seq::new(
        v.len(),
        |i: int| if 0 <= i < v.len() {
            v[i]@
        } else {
            MethodCallV { name: Seq::empty(), arguments: Seq::empty(), call_id: Seq::empty() }
        },
    )
}

/// Models of a capability list, element by element.
pub open spec fn strs_v(v: Seq<String>) -> Seq<Seq<char>> {
    Seq::new(v.len(), |i: int| if 0 <= i < v.len() { v[i]@ } else { Seq::<char>::empty() })
}

impl View for Request {
    type V = RequestV;

    open spec fn view(&self) -> RequestV {
        RequestV { using: strs_v(self.using@), method_calls: calls_v(self.method_calls@) }
    }
}

/// The capability URI of the protocol core, present in every batch.
pub open spec fn core_capability() -> Seq<char> {
    "urn:ietf:params:jmap:core"@
}

/// `x` occurs among `ss`.
pub open spec fn contains_str(ss: Seq<Seq<char>>, x: Seq<char>) -> bool {
    exists|i: int| 0 <= i < ss.len() && ss[i] == x
}

/// Wire form of a back-reference value.
pub open spec fn ref_json(c: Seq<char>, n: Seq<char>, p: Seq<char>) -> JsonV {
    JsonV::Obj(
        seq![
            ("resultOf"@, JsonV::Str(c)),
            ("name"@, JsonV::Str(n)),
            ("path"@, JsonV::Str(p)),
        ],
    )
}

/// Wire form of one argument: a literal keeps its name and value; a
/// back-reference goes under the `#`-prefixed name with the reference
/// object as its value.
pub open spec fn arg_wire(k: Seq<char>, a: ArgumentV) -> (Seq<char>, JsonV) {
    match a {
        ArgumentV::Value(j) => (k, j),
        ArgumentV::Reference(c, n, p) => (seq!['#'] + k, ref_json(c, n, p)),
    }
}

/// Wire form of an argument list.
pub open spec fn args_wire(args: Seq<(Seq<char>, ArgumentV)>) -> Seq<(Seq<char>, JsonV)> {
    Seq::new(
        args.len(),
        |i: int| if 0 <= i < args.len() {
            arg_wire(args[i].0, args[i].1)
        } else {
            (Seq::<char>::empty(), JsonV::Null)
        },
    )
}

/// Wire form of one call: the `[name, arguments, callId]` triple.
pub open spec fn call_json(c: MethodCallV) -> JsonV {
    JsonV::Arr(
        seq![JsonV::Str(c.name), JsonV::Obj(args_wire(c.arguments)), JsonV::Str(c.call_id)],
    )
}

/// Wire forms of a call list.
pub open spec fn calls_json(cs: Seq<MethodCallV>) -> Seq<JsonV> {
    Seq::new(
        cs.len(),
        |i: int| if 0 <= i < cs.len() {
            call_json(cs[i])
        } else {
            JsonV::Null
        },
    )
}

/// String documents for a capability list.
pub open spec fn strs_json(ss: Seq<Seq<char>>) -> Seq<JsonV> {
    Seq::new(ss.len(), |i: int| if 0 <= i < ss.len() { JsonV::Str(ss[i]) } else { JsonV::Null })
}

/// Wire form of a whole batch: `{"using": [...], "methodCalls": [...]}`,
/// in exactly that member order.
pub open spec fn req_json(r: RequestV) -> JsonV {
    JsonV::Obj(
        seq![
            ("using"@, JsonV::Arr(strs_json(r.using))),
            ("methodCalls"@, JsonV::Arr(calls_json(r.method_calls))),
        ],
    )
}

/// Read back a capability list.
pub open spec fn strs_from(a: Seq<JsonV>) -> Option<Seq<Seq<char>>>
    decreases a.len(),
{
    if a.len() == 0 {
        Some(Seq::empty())
    } else {
        match a[0] {
            JsonV::Str(s) => match strs_from(a.skip(1)) {
                Some(t) => Some(seq![s] + t),
                None => None,
            },
            _ => None,
        }
    }
}

/// Read back a back-reference value: exactly the three reserved members, in
/// order, each a string.
pub open spec fn ref_from(v: JsonV) -> Option<(Seq<char>, Seq<char>, Seq<char>)> {
    match v {
        JsonV::Obj(m) => if m.len() == 3 && m[0].0 == "resultOf"@ && m[0].1 is Str && m[1].0
            == "name"@ && m[1].1 is Str && m[2].0 == "path"@ && m[2].1 is Str {
            Some((m[0].1->Str_0, m[1].1->Str_0, m[2].1->Str_0))
        } else {
            None
        },
        _ => None,
    }
}

/// Read back one argument: a `#`-prefixed name must carry a well-formed
/// back-reference value and is never taken for a literal.
pub open spec fn arg_from(k: Seq<char>, v: JsonV) -> Option<(Seq<char>, ArgumentV)> {
    if k.len() > 0 && k[0] == '#' {
        match ref_from(v) {
            Some((c, n, p)) => Some((k.skip(1), ArgumentV::Reference(c, n, p))),
            None => None,
        }
    } else {
        Some((k, ArgumentV::Value(v)))
    }
}

/// Read back an argument list.
pub open spec fn args_from(m: Seq<(Seq<char>, JsonV)>) -> Option<Seq<(Seq<char>, ArgumentV)>>
    decreases m.len(),
{
    if m.len() == 0 {
        Some(Seq::empty())
    } else {
        match arg_from(m[0].0, m[0].1) {
            Some(a) => match args_from(m.skip(1)) {
                Some(t) => Some(seq![a] + t),
                None => None,
            },
            None => None,
        }
    }
}

/// Read back one call triple.
pub open spec fn call_from(v: JsonV) -> Option<MethodCallV> {
    match v {
        JsonV::Arr(e) => if e.len() == 3 && e[0] is Str && e[1] is Obj && e[2] is Str {
            match args_from(e[1]->Obj_0) {
                Some(args) => Some(
                    MethodCallV { name: e[0]->Str_0, arguments: args, call_id: e[2]->Str_0 },
                ),
                None => None,
            }
        } else {
            None
        },
        _ => None,
    }
}

/// Read back a call list.
pub open spec fn calls_from(a: Seq<JsonV>) -> Option<Seq<MethodCallV>>
    decreases a.len(),
{
    if a.len() == 0 {
        Some(Seq::empty())
    } else {
        match call_from(a[0]) {
            Some(c) => match calls_from(a.skip(1)) {
                Some(t) => Some(seq![c] + t),
                None => None,
            },
            None => None,
        }
    }
}

/// Read back a whole batch from its document form.
pub open spec fn req_from_json(v: JsonV) -> Option<RequestV> {
    match v {
        JsonV::Obj(m) => if m.len() == 2 && m[0].0 == "using"@ && m[0].1 is Arr && m[1].0
            == "methodCalls"@ && m[1].1 is Arr {
            match strs_from(m[0].1->Arr_0) {
                Some(u) => match calls_from(m[1].1->Arr_0) {
                    Some(cs) => Some(RequestV { using: u, method_calls: cs }),
                    None => None,
                },
                None => None,
            }
        } else {
            None
        },
        _ => None,
    }
}

/// A literal argument name never starts with the reserved `#` character.
pub open spec fn arg_key_wf(k: Seq<char>) -> bool {
    k.len() == 0 || k[0] != '#'
}

/// All argument names of one call are free of the reserved prefix.
pub open spec fn call_keys_wf(c: MethodCallV) -> bool {
    forall|k: int| 0 <= k < c.arguments.len() ==> arg_key_wf((#[trigger] c.arguments[k]).0)
}

/// All argument names of a batch are free of the reserved prefix.
pub open spec fn req_wf(r: RequestV) -> bool {
    forall|i: int| 0 <= i < r.method_calls.len() ==> call_keys_wf(#[trigger] r.method_calls[i])
}

proof fn lemma_strs_round(u: Seq<Seq<char>>)
    ensures
        strs_from(strs_json(u)) == Some(u),
    decreases u.len(),
{
    if u.len() == 0 {
        assert(u =~= Seq::<Seq<char>>::empty());
    } else {
        assert(strs_json(u)[0] == JsonV::Str(u[0]));
        assert(strs_json(u).skip(1) =~= strs_json(u.skip(1)));
        lemma_strs_round(u.skip(1));
        assert(seq![u[0]] + u.skip(1) =~= u);
    }
}

proof fn lemma_args_round(args: Seq<(Seq<char>, ArgumentV)>)
    requires
        forall|k: int| 0 <= k < args.len() ==> arg_key_wf((#[trigger] args[k]).0),
    ensures
        args_from(args_wire(args)) == Some(args),
    decreases args.len(),
{
    if args.len() == 0 {
        assert(args =~= Seq::<(Seq<char>, ArgumentV)>::empty());
    } else {
        let (k, a) = args[0];
        assert(args_wire(args)[0] == arg_wire(k, a));
        assert(arg_key_wf(args[0].0));
        match a {
            ArgumentV::Value(j) => {
                assert(arg_from(k, j) == Some((k, a)));
            },
            ArgumentV::Reference(c, n, p) => {
                let wk = seq!['#'] + k;
                assert(wk[0] == '#');
                assert(wk.skip(1) =~= k);
                assert(arg_from(wk, ref_json(c, n, p)) == Some((k, a)));
            },
        }
        assert(args_wire(args).skip(1) =~= args_wire(args.skip(1)));
        lemma_args_round(args.skip(1));
        assert(seq![args[0]] + args.skip(1) =~= args);
    }
}

proof fn lemma_calls_round(cs: Seq<MethodCallV>)
    requires
        forall|i: int| 0 <= i < cs.len() ==> call_keys_wf(#[trigger] cs[i]),
    ensures
        calls_from(calls_json(cs)) == Some(cs),
    decreases cs.len(),
{
    if cs.len() == 0 {
        assert(cs =~= Seq::<MethodCallV>::empty());
    } else {
        assert(calls_json(cs)[0] == call_json(cs[0]));
        assert(call_keys_wf(cs[0]));
        lemma_args_round(cs[0].arguments);
        assert(call_from(call_json(cs[0])) == Some(cs[0]));
        assert(calls_json(cs).skip(1) =~= calls_json(cs.skip(1)));
        lemma_calls_round(cs.skip(1));
        assert(seq![cs[0]] + cs.skip(1) =~= cs);
    }
}

/// Every literal argument value of the batch is a well-formed document
/// (its number literals are valid number tokens).
pub open spec fn req_values_wf(r: RequestV) -> bool {
    forall|i: int, k: int|
        0 <= i < r.method_calls.len() && 0 <= k < r.method_calls[i].arguments.len() ==> (match (
        #[trigger] r.method_calls[i].arguments[k]).1 {
            ArgumentV::Value(j) => wf(j),
            ArgumentV::Reference(_, _, _) => true,
        })
}

/// A batch with well-formed argument values serializes to a well-formed
/// document.
pub proof fn lemma_req_json_wf(r: RequestV)
    requires
        req_values_wf(r),
    ensures
        wf(req_json(r)),
{
    let u = strs_json(r.using);
    assert forall|k: int| 0 <= k < u.len() implies wf(#[trigger] u[k]) by {}
    let cj = calls_json(r.method_calls);
    assert forall|i: int| 0 <= i < cj.len() implies wf(#[trigger] cj[i]) by {
        let c = r.method_calls[i];
        let aw = args_wire(c.arguments);
        assert forall|k: int| 0 <= k < aw.len() implies wf((#[trigger] aw[k]).1) by {
            assert(aw[k] == arg_wire(c.arguments[k].0, c.arguments[k].1));
            match c.arguments[k].1 {
                ArgumentV::Value(j) => {
                    assert(wf(j));
                },
                ArgumentV::Reference(rc, rn, rp) => {
                    let m = ref_json(rc, rn, rp)->Obj_0;
                    assert forall|q: int| 0 <= q < m.len() implies wf((#[trigger] m[q]).1) by {}
                },
            }
        }
        assert(cj[i] == call_json(c));
        let e = call_json(c)->Arr_0;
        assert forall|q: int| 0 <= q < e.len() implies wf(#[trigger] e[q]) by {}
    }
    let m = req_json(r)->Obj_0;
    assert forall|q: int| 0 <= q < m.len() implies wf((#[trigger] m[q]).1) by {}
}

/// Round trip: a batch whose literal argument names avoid the reserved
/// prefix, and whose argument values are well formed, is reproduced
/// exactly — same ordered calls, same capability list — by parsing its own
/// serialization.
pub proof fn lemma_batch_round_trip(r: RequestV)
    requires
        req_wf(r),
        req_values_wf(r),
    ensures
        sp_doc(ser(req_json(r))) == Some(req_json(r)),
        req_from_json(req_json(r)) == Some(r),
{
    lemma_req_json_wf(r);
    lemma_parse_ser(req_json(r));
    lemma_strs_round(r.using);
    lemma_calls_round(r.method_calls);
}

impl ResultReference {
    /// A back-reference to the result of the call tagged `result_of`.
    pub fn new(result_of: String, name: String, path: String) -> (r: ResultReference)
        ensures
            r.result_of == result_of,
            r.name == name,
            r.path == path,
    {
        ResultReference { result_of, name, path }
    }

    /// The wire value of this back-reference.
    pub fn to_json(&self) -> (r: Json)
        ensures
            r@ == ref_json(self.result_of@, self.name@, self.path@),
    {
        let mut m: Vec<(String, Json)> = Vec::new();
        m.push((String::from_str("resultOf"), Json::Str(self.result_of.clone())));
        m.push((String::from_str("name"), Json::Str(self.name.clone())));
        m.push((String::from_str("path"), Json::Str(self.path.clone())));
        proof {
            assert(mviews(m@) =~= seq![
                ("resultOf"@, JsonV::Str(self.result_of@)),
                ("name"@, JsonV::Str(self.name@)),
                ("path"@, JsonV::Str(self.path@)),
            ]);
        }
        Json::Obj(m)
    }
}

fn contains_string(v: &Vec<String>, x: &str) -> (r: bool)
    ensures
        r == contains_str(strs_v(v@), x@),
{
    let n = v.len();
    let mut i: usize = 0;
    while i < n
        invariant
            i <= n,
            n == v@.len(),
            forall|k: int| 0 <= k < i ==> strs_v(v@)[k] != x@,
        decreases n - i,
    {
        if str_eq(v[i].as_str(), x) {
            assert(strs_v(v@)[i as int] == x@);
            return true;
        }
        assert(strs_v(v@)[i as int] != x@);
        i += 1;
    }
    assert(!contains_str(strs_v(v@), x@));
    false
}

fn call_to_json(c: &MethodCall) -> (r: Json)
    ensures
        r@ == call_json(c@),
{
    let mut am: Vec<(String, Json)> = Vec::new();
    let n = c.arguments.len();
    let mut i: usize = 0;
    while i < n
        invariant
            i <= n,
            n == c.arguments@.len(),
            am@.len() == i,
            forall|k: int|
                0 <= k < i ==> mviews(am@)[k] == args_wire(args_v(c.arguments@))[k],
        decreases n - i,
    {
        let ghost am0 = am@;
        match &c.arguments[i].1 {
            Argument::Value(j) => {
                am.push((c.arguments[i].0.clone(), j.deep_clone()));
            },
            Argument::Reference(rr) => {
                let mut key = String::new();
                push_char(&mut key, '#');
                key.append(c.arguments[i].0.as_str());
                am.push((key, rr.to_json()));
            },
        }
        proof {
            let ghost ii = i as int;
            assert(args_v(c.arguments@)[ii] == (c.arguments@[ii].0@, c.arguments@[ii].1@));
            assert(mviews(am@)[ii] == args_wire(args_v(c.arguments@))[ii]);
            assert forall|k: int| 0 <= k < ii + 1 implies mviews(am@)[k] == args_wire(
                args_v(c.arguments@),
            )[k] by {
                if k < ii {
                    assert(am@[k] == am0[k]);
                    assert(mviews(am@)[k] == mviews(am0)[k]);
                }
            }
        }
        i += 1;
    }
    proof {
        assert(mviews(am@) =~= args_wire(args_v(c.arguments@)));
    }
    let mut e: Vec<Json> = Vec::new();
    e.push(Json::Str(c.name.clone()));
    e.push(Json::Obj(am));
    e.push(Json::Str(c.call_id.clone()));
    proof {
        assert(views(e@) =~= seq![
            JsonV::Str(c@.name),
            JsonV::Obj(args_wire(c@.arguments)),
            JsonV::Str(c@.call_id),
        ]);
    }
    Json::Arr(e)
}

impl Request {
    /// A fresh batch: no calls yet, and the core capability already
    /// declared.
    pub fn new() -> (r: Request)
        ensures
            r@.using == seq![core_capability()],
            r@.method_calls.len() == 0,
            r.next_call_id == 0,
    {
        let mut using: Vec<String> = Vec::new();
        using.push(String::from_str("urn:ietf:params:jmap:core"));
        let r = Request { using, method_calls: Vec::new(), next_call_id: 0 };
        proof {
            assert(strs_v(r.using@) =~= seq![core_capability()]);
            assert(calls_v(r.method_calls@) =~= Seq::<MethodCallV>::empty());
        }
        r
    }

    /// Declare one more capability URI; the list stays free of duplicates
    /// and keeps its order.
    pub fn add_capability(&mut self, uri: String)
        ensures
            final(self).next_call_id == old(self).next_call_id,
            final(self)@.method_calls == old(self)@.method_calls,
            contains_str(old(self)@.using, uri@) ==> final(self)@.using == old(self)@.using,
            !contains_str(old(self)@.using, uri@) ==> final(self)@.using == old(
                self,
            )@.using.push(uri@),
    {
        let ghost uv = uri@;
        if !contains_string(&self.using, uri.as_str()) {
            self.using.push(uri);
            proof {
                assert(strs_v(self.using@) =~= strs_v(old(self).using@).push(uv));
            }
        }
    }

    /// Append a call under the given call id.
    pub fn add_call_with_id(
        &mut self,
        name: String,
        arguments: Vec<(String, Argument)>,
        call_id: String,
    )
        ensures
            final(self)@.using == old(self)@.using,
            final(self).next_call_id == old(self).next_call_id,
            final(self)@.method_calls == old(self)@.method_calls.push(
                MethodCallV { name: name@, arguments: args_v(arguments@), call_id: call_id@ },
            ),
    {
        let ghost mcv = MethodCallV {
            name: name@,
            arguments: args_v(arguments@),
            call_id: call_id@,
        };
        self.method_calls.push(MethodCall { name, arguments, call_id });
        proof {
            assert(calls_v(self.method_calls@) =~= calls_v(old(self).method_calls@).push(mcv));
        }
    }

    /// Append a call under an automatically assigned id of the form `cN`,
    /// returned so later calls can reference this one.
    pub fn add_call(&mut self, name: String, arguments: Vec<(String, Argument)>) -> (id: String)
        requires
            old(self).next_call_id < u64::MAX,
        ensures
            id@ == seq!['c'] + dec_of(old(self).next_call_id as nat),
            final(self)@.using == old(self)@.using,
            final(self).next_call_id == old(self).next_call_id + 1,
            final(self)@.method_calls == old(self)@.method_calls.push(
                MethodCallV { name: name@, arguments: args_v(arguments@), call_id: id@ },
            ),
    {
        let mut id = String::new();
        push_char(&mut id, 'c');
        push_dec(&mut id, self.next_call_id);
        let id2 = id.clone();
        self.add_call_with_id(name, arguments, id);
        self.next_call_id = self.next_call_id + 1;
        id2
    }

    /// The capability URIs the batch declares, the core capability first,
    /// then the others in the order they were added, without duplicates.
    pub fn capabilities_used(&self) -> (r: &Vec<String>)
        ensures
            strs_v(r@) == self@.using,
    {
        &self.using
    }

    /// The batch as a wire document.
    pub fn to_json(&self) -> (r: Json)
        ensures
            r@ == req_json(self@),
    {
        let mut ju: Vec<Json> = Vec::new();
        let n = self.using.len();
        let mut i: usize = 0;
        while i < n
            invariant
                i <= n,
                n == self.using@.len(),
                ju@.len() == i,
                forall|k: int|
                    0 <= k < i ==> jview(#[trigger] ju@[k]) == strs_json(strs_v(self.using@))[k],
            decreases n - i,
        {
            ju.push(Json::Str(self.using[i].clone()));
            i += 1;
        }
        proof {
            assert(views(ju@) =~= strs_json(strs_v(self.using@)));
        }
        let mut jc: Vec<Json> = Vec::new();
        let m = self.method_calls.len();
        let mut k: usize = 0;
        while k < m
            invariant
                k <= m,
                m == self.method_calls@.len(),
                jc@.len() == k,
                forall|q: int|
                    0 <= q < k ==> jview(#[trigger] jc@[q]) == calls_json(
                        calls_v(self.method_calls@),
                    )[q],
            decreases m - k,
        {
            let cj = call_to_json(&self.method_calls[k]);
            jc.push(cj);
            proof {
                assert(calls_v(self.method_calls@)[k as int] == self.method_calls@[k as int]@);
            }
            k += 1;
        }
        proof {
            assert(views(jc@) =~= calls_json(calls_v(self.method_calls@)));
        }
        let mut env: Vec<(String, Json)> = Vec::new();
        env.push((String::from_str("using"), Json::Arr(ju)));
        env.push((String::from_str("methodCalls"), Json::Arr(jc)));
        proof {
            assert(mviews(env@) =~= seq![
                ("using"@, JsonV::Arr(strs_json(self@.using))),
                ("methodCalls"@, JsonV::Arr(calls_json(self@.method_calls))),
            ]);
        }
        Json::Obj(env)
    }

    /// Canonical wire text of the batch, in insertion order.
    pub fn serialize(&self) -> (r: String)
        ensures
            r@ == ser(req_json(self@)),
    {
        self.to_json().to_text()
    }

    /// Parse wire text back into a batch; `None` when the text is not a
    /// well-formed batch document.
    pub fn parse(s: &str) -> (r: Option<Request>)
        ensures
            (r is Some) == (sp_doc(s@) matches Some(v) && req_from_json(v) is Some),
            r matches Some(q) ==> (sp_doc(s@) matches Some(v) && req_from_json(v) == Some(q@)
                && q.next_call_id == 0),
    {
        match Json::parse_text(s) {
            None => None,
            Some(doc) => req_from_doc(&doc),
        }
    }
}

fn parse_ref(v: &Json) -> (r: Option<ResultReference>)
    ensures
        (r is Some) == (ref_from(v@) is Some),
        r matches Some(q) ==> ref_from(v@) == Some((q.result_of@, q.name@, q.path@)),
{
    match v {
        Json::Obj(m) => {
            if m.len() != 3 {
                return None;
            }
            if !str_eq(m[0].0.as_str(), "resultOf") || !str_eq(m[1].0.as_str(), "name") || !str_eq(
                m[2].0.as_str(),
                "path",
            ) {
                return None;
            }
            let c = match &m[0].1 {
                Json::Str(s) => s,
                _ => { return None },
            };
            let n = match &m[1].1 {
                Json::Str(s) => s,
                _ => { return None },
            };
            let p = match &m[2].1 {
                Json::Str(s) => s,
                _ => { return None },
            };
            proof {
                assert(mviews(m@)[0] == (m@[0].0@, jview(m@[0].1)));
                assert(mviews(m@)[1] == (m@[1].0@, jview(m@[1].1)));
                assert(mviews(m@)[2] == (m@[2].0@, jview(m@[2].1)));
            }
            Some(ResultReference { result_of: c.clone(), name: n.clone(), path: p.clone() })
        },
        _ => None,
    }
}

fn parse_args(mm: &Vec<(String, Json)>, k: usize) -> (r: Option<Vec<(String, Argument)>>)
    requires
        k <= mm@.len(),
    ensures
        (r is Some) == (args_from(mviews(mm@).skip(k as int)) is Some),
        r matches Some(p) ==> args_from(mviews(mm@).skip(k as int)) == Some(args_v(p@)),
    decreases mm@.len() - k,
{
    if k == mm.len() {
        let p: Vec<(String, Argument)> = Vec::new();
        proof {
            assert(mviews(mm@).skip(k as int) =~= Seq::<(Seq<char>, JsonV)>::empty());
            assert(args_v(p@) =~= Seq::<(Seq<char>, ArgumentV)>::empty());
        }
        return Some(p);
    }
    proof {
        assert(mviews(mm@).skip(k as int)[0] == mviews(mm@)[k as int]);
        assert(mviews(mm@).skip(k as int).skip(1) =~= mviews(mm@).skip(k as int + 1));
    }
    let key = &mm[k].0;
    let klen = key.as_str().unicode_len();
    let head: (String, Argument) = if klen > 0 && key.as_str().get_char(0) == '#' {
        match parse_ref(&mm[k].1) {
            Some(rr) => {
                let short = key.as_str().substring_char(1, klen).to_owned();
                proof {
                    assert(short@ =~= key@.skip(1));
                }
                (short, Argument::Reference(rr))
            },
            None => { return None },
        }
    } else {
        (key.clone(), Argument::Value(mm[k].1.deep_clone()))
    };
    match parse_args(mm, k + 1) {
        Some(mut t) => {
            t.insert(0, head);
            proof {
                let g = args_from(mviews(mm@).skip(k as int))->Some_0;
                assert(args_v(t@) =~= g);
            }
            Some(t)
        },
        None => None,
    }
}

fn parse_call(v: &Json) -> (r: Option<MethodCall>)
    ensures
        (r is Some) == (call_from(v@) is Some),
        r matches Some(q) ==> call_from(v@) == Some(q@),
{
    match v {
        Json::Arr(e) => {
            if e.len() != 3 {
                return None;
            }
            proof {
                assert(views(e@)[0] == jview(e@[0]));
                assert(views(e@)[1] == jview(e@[1]));
                assert(views(e@)[2] == jview(e@[2]));
            }
            let name = match &e[0] {
                Json::Str(s) => s.clone(),
                _ => { return None },
            };
            let am = match &e[1] {
                Json::Obj(mm) => mm,
                _ => { return None },
            };
            let id = match &e[2] {
                Json::Str(s) => s.clone(),
                _ => { return None },
            };
            match parse_args(am, 0) {
                Some(args) => {
                    proof {
                        assert(mviews(am@).skip(0) =~= mviews(am@));
                    }
                    Some(MethodCall { name, arguments: args, call_id: id })
                },
                None => None,
            }
        },
        _ => None,
    }
}

fn parse_calls(a: &Vec<Json>, k: usize) -> (r: Option<Vec<MethodCall>>)
    requires
        k <= a@.len(),
    ensures
        (r is Some) == (calls_from(views(a@).skip(k as int)) is Some),
        r matches Some(p) ==> calls_from(views(a@).skip(k as int)) == Some(calls_v(p@)),
    decreases a@.len() - k,
{
    if k == a.len() {
        let p: Vec<MethodCall> = Vec::new();
        proof {
            assert(views(a@).skip(k as int) =~= Seq::<JsonV>::empty());
            assert(calls_v(p@) =~= Seq::<MethodCallV>::empty());
        }
        return Some(p);
    }
    proof {
        assert(views(a@).skip(k as int)[0] == views(a@)[k as int]);
        assert(views(a@).skip(k as int).skip(1) =~= views(a@).skip(k as int + 1));
    }
    match parse_call(&a[k]) {
        Some(c) => match parse_calls(a, k + 1) {
            Some(mut t) => {
                t.insert(0, c);
                proof {
                    let g = calls_from(views(a@).skip(k as int))->Some_0;
                    assert(calls_v(t@) =~= g);
                }
                Some(t)
            },
            None => None,
        },
        None => None,
    }
}

fn parse_strs(a: &Vec<Json>, k: usize) -> (r: Option<Vec<String>>)
    requires
        k <= a@.len(),
    ensures
        (r is Some) == (strs_from(views(a@).skip(k as int)) is Some),
        r matches Some(p) ==> strs_from(views(a@).skip(k as int)) == Some(strs_v(p@)),
    decreases a@.len() - k,
{
    if k == a.len() {
        let p: Vec<String> = Vec::new();
        proof {
            assert(views(a@).skip(k as int) =~= Seq::<JsonV>::empty());
            assert(strs_v(p@) =~= Seq::<Seq<char>>::empty());
        }
        return Some(p);
    }
    proof {
        assert(views(a@).skip(k as int)[0] == views(a@)[k as int]);
        assert(views(a@).skip(k as int).skip(1) =~= views(a@).skip(k as int + 1));
    }
    match &a[k] {
        Json::Str(s) => match parse_strs(a, k + 1) {
            Some(mut t) => {
                t.insert(0, s.clone());
                proof {
                    let g = strs_from(views(a@).skip(k as int))->Some_0;
                    assert(strs_v(t@) =~= g);
                }
                Some(t)
            },
            None => None,
        },
        _ => None,
    }
}

fn req_from_doc(doc: &Json) -> (r: Option<Request>)
    ensures
        (r is Some) == (req_from_json(doc@) is Some),
        r matches Some(q) ==> req_from_json(doc@) == Some(q@) && q.next_call_id == 0,
{
    match doc {
        Json::Obj(m) => {
            if m.len() != 2 {
                return None;
            }
            proof {
                assert(mviews(m@)[0] == (m@[0].0@, jview(m@[0].1)));
                assert(mviews(m@)[1] == (m@[1].0@, jview(m@[1].1)));
            }
            if !str_eq(m[0].0.as_str(), "using") || !str_eq(m[1].0.as_str(), "methodCalls") {
                return None;
            }
            let ju = match &m[0].1 {
                Json::Arr(a) => a,
                _ => { return None },
            };
            let jc = match &m[1].1 {
                Json::Arr(a) => a,
                _ => { return None },
            };
            proof {
                assert(views(ju@).skip(0) =~= views(ju@));
                assert(views(jc@).skip(0) =~= views(jc@));
            }
            let u = match parse_strs(ju, 0) {
                Some(u) => u,
                None => { return None },
            };
            let cs = match parse_calls(jc, 0) {
                Some(c) => c,
                None => { return None },
            };
            Some(Request { using: u, method_calls: cs, next_call_id: 0 })
        },
        _ => None,
    }
}

/// A back-reference argument can never be read back as a literal, nor a
/// literal as a back-reference: their wire names differ on the first
/// character whenever the literal's name is well formed.
pub proof fn lemma_reference_distinct(k: Seq<char>, a: ArgumentV, k2: Seq<char>, v: JsonV)
    requires
        a is Reference,
        arg_key_wf(k2),
    ensures
        arg_wire(k, a).0 != k2,
        arg_from(arg_wire(k, a).0, arg_wire(k, a).1) matches Some(b) && b.1 is Reference,
{
    let wk = arg_wire(k, a).0;
    assert(wk == seq!['#'] + k);
    assert(wk[0] == '#');
    if a is Reference {
        let (c, n, p) = (a->Reference_0, a->Reference_1, a->Reference_2);
        assert(arg_wire(k, a).1 == ref_json(c, n, p));
        assert(ref_from(ref_json(c, n, p)) == Some((c, n, p)));
    }
}

} // verus!
