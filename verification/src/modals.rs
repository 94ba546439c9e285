use vstd::prelude::*;

verus! {

/// The dialogs that can be opened from anywhere.
#[derive(Clone, Copy, Debug, PartialEq, Eq, Hash, Structural)]
pub enum ModalType {
    BatchAction,
}

/// What a component asks of the dialog hub: to be the one that shows a dialog,
/// or to open a dialog.
#[derive(Clone, Copy, Debug, PartialEq, Eq, Structural)]
pub enum ModalRequest {
    Register(ModalType),
    ActivateModal(ModalType),
}

/// The dialog hub: which component (by handler number) shows each dialog.
pub struct ModalAgent {
    subscribers: Vec<(ModalType, u64)>,
}

/// Each dialog has at most one component.
pub open spec fn unique_dialogs(s: Seq<(ModalType, u64)>) -> bool {
    forall|i: int, j: int| 0 <= i < j < s.len() ==> (#[trigger] s[i]).0 != (#[trigger] s[j]).0
}

/// The component of each dialog.
pub open spec fn dialog_map(s: Seq<(ModalType, u64)>) -> Map<ModalType, u64> {
    Map::new(
        |t: ModalType| exists|i: int| 0 <= i < s.len() && (#[trigger] s[i]).0 == t,
        |t: ModalType| s[choose|i: int| 0 <= i < s.len() && (#[trigger] s[i]).0 == t].1,
    )
}

proof fn lemma_dialog_at(s: Seq<(ModalType, u64)>, i: int)
    requires
        unique_dialogs(s),
        0 <= i < s.len(),
    ensures
        dialog_map(s).contains_key(s[i].0),
        dialog_map(s)[s[i].0] == s[i].1,
{
    let t = s[i].0;
    assert(exists|j: int| 0 <= j < s.len() && (#[trigger] s[j]).0 == t);
    let j = choose|j: int| 0 <= j < s.len() && (#[trigger] s[j]).0 == t;
    if j != i {
        if j < i {
            assert(s[j].0 != s[i].0);
        } else {
            assert(s[i].0 != s[j].0);
        }
    }
}

/// The hub after a request: a registration sets the dialog's component, an
/// opening changes nothing.
pub open spec fn modal_step(m: Map<ModalType, u64>, msg: ModalRequest, id: u64) -> Map<ModalType, u64> {
    match msg {
        ModalRequest::Register(t) => m.insert(t, id),
        ModalRequest::ActivateModal(_) => m,
    }
}

impl ModalAgent {
    pub closed spec fn view(&self) -> Map<ModalType, u64> {
        dialog_map(self.subscribers@)
    }

    pub closed spec fn wf(&self) -> bool {
        unique_dialogs(self.subscribers@)
    }

    /// A hub that knows no component.
    pub fn new() -> (r: Self)
        ensures
            r.wf(),
            r@ == Map::<ModalType, u64>::empty(),
    {
        let r = ModalAgent { subscribers: Vec::new() };
        assert(r@ =~= Map::<ModalType, u64>::empty());
        r
    }

    /// Handles request `msg` from component `id`; an opening tells which
    /// component is to show its dialog, which must have been registered.
    pub fn handle_input(&mut self, msg: ModalRequest, id: u64) -> (r: Option<(u64, ModalType)>)
        requires
            old(self).wf(),
            msg matches ModalRequest::ActivateModal(t) ==> old(self)@.contains_key(t),
        ensures
            final(self).wf(),
            final(self)@ == modal_step(old(self)@, msg, id),
            r == match msg {
                ModalRequest::Register(_) => None,
                ModalRequest::ActivateModal(t) => Some((old(self)@[t], t)),
            },
    {
        match msg {
            ModalRequest::Register(t) => {
                let ghost before = self.subscribers@;
                let mut i: usize = 0;
                while i < self.subscribers.len()
                    invariant
                        msg == ModalRequest::Register(t),
                        self.subscribers@ == before,
                        old(self).subscribers@ == before,
                        unique_dialogs(before),
                        i <= before.len(),
                        forall|j: int| 0 <= j < i ==> (#[trigger] before[j]).0 != t,
                    decreases before.len() - i,
                {
                    if self.subscribers[i].0 == t {
                        self.subscribers.set(i, (t, id));
                        proof {
                            let after = self.subscribers@;
                            assert forall|a: int, b: int| 0 <= a < b < after.len() implies (#[trigger] after[a]).0 != (#[trigger] after[b]).0 by {
                                assert(before[a].0 != before[b].0);
                            }
                            assert forall|x: ModalType| #[trigger] dialog_map(after).contains_key(x) <==> dialog_map(before).insert(t, id).contains_key(x) by {
                                if dialog_map(before).contains_key(x) {
                                    let j = choose|j: int| 0 <= j < before.len() && (#[trigger] before[j]).0 == x;
                                    assert(after[j].0 == x);
                                }
                                if dialog_map(after).contains_key(x) {
                                    let j = choose|j: int| 0 <= j < after.len() && (#[trigger] after[j]).0 == x;
                                    assert(before[j].0 == x);
                                }
                                lemma_dialog_at(after, i as int);
                            }
                            assert forall|x: ModalType| #[trigger] dialog_map(after).contains_key(x) implies dialog_map(after)[x] == dialog_map(before).insert(t, id)[x] by {
                                let j = choose|j: int| 0 <= j < after.len() && (#[trigger] after[j]).0 == x;
                                lemma_dialog_at(after, j);
                                if j != i {
                                    lemma_dialog_at(before, j);
                                }
                            }
                            assert(dialog_map(after) =~= dialog_map(before).insert(t, id));
                        }
                        return None;
                    }
                    i = i + 1;
                }
                self.subscribers.push((t, id));
                proof {
                    let after = self.subscribers@;
                    assert forall|a: int, b: int| 0 <= a < b < after.len() implies (#[trigger] after[a]).0 != (#[trigger] after[b]).0 by {
                        if b < before.len() {
                            assert(before[a].0 != before[b].0);
                        }
                    }
                    lemma_dialog_at(after, before.len() as int);
                    assert forall|x: ModalType| #[trigger] dialog_map(after).contains_key(x) <==> dialog_map(before).insert(t, id).contains_key(x) by {
                        if dialog_map(before).contains_key(x) {
                            let j = choose|j: int| 0 <= j < before.len() && (#[trigger] before[j]).0 == x;
                            assert(after[j].0 == x);
                        }
                        if dialog_map(after).contains_key(x) && x != t {
                            let j = choose|j: int| 0 <= j < after.len() && (#[trigger] after[j]).0 == x;
                            assert(before[j].0 == x);
                        }
                    }
                    assert forall|x: ModalType| #[trigger] dialog_map(after).contains_key(x) implies dialog_map(after)[x] == dialog_map(before).insert(t, id)[x] by {
                        let j = choose|j: int| 0 <= j < after.len() && (#[trigger] after[j]).0 == x;
                        lemma_dialog_at(after, j);
                        if x != t {
                            lemma_dialog_at(before, j);
                        }
                    }
                    assert(dialog_map(after) =~= dialog_map(before).insert(t, id));
                }
                None
            },
            ModalRequest::ActivateModal(t) => {
                let mut i: usize = 0;
                while i < self.subscribers.len()
                    invariant
                        msg == ModalRequest::ActivateModal(t),
                        *self == *old(self),
                        self.wf(),
                        self@.contains_key(t),
                        i <= self.subscribers@.len(),
                        forall|j: int| 0 <= j < i ==> (#[trigger] self.subscribers@[j]).0 != t,
                    decreases self.subscribers@.len() - i,
                {
                    if self.subscribers[i].0 == t {
                        proof { lemma_dialog_at(self.subscribers@, i as int); }
                        return Some((self.subscribers[i].1, t));
                    }
                    i = i + 1;
                }
                proof {
                    let j = choose|j: int| 0 <= j < self.subscribers@.len() && (#[trigger] self.subscribers@[j]).0 == t;
                }
                None
            },
        }
    }

    /// The component that shows dialog `t`, if one registered.
    pub fn subscriber(&self, t: ModalType) -> (r: Option<u64>)
        requires
            self.wf(),
        ensures
            r == (if self@.contains_key(t) { Some(self@[t]) } else { None::<u64> }),
    {
        let mut i: usize = 0;
        while i < self.subscribers.len()
            invariant
                self.wf(),
                i <= self.subscribers@.len(),
                forall|j: int| 0 <= j < i ==> (#[trigger] self.subscribers@[j]).0 != t,
            decreases self.subscribers@.len() - i,
        {
            if self.subscribers[i].0 == t {
                proof { lemma_dialog_at(self.subscribers@, i as int); }
                return Some(self.subscribers[i].1);
            }
            i = i + 1;
        }
        None
    }

    /// Forgets component `id`: every dialog it showed has none.
    pub fn disconnected(&mut self, id: u64)
        requires
            old(self).wf(),
        ensures
            final(self).wf(),
            final(self)@ == old(self)@.restrict(old(self)@.dom().filter(|t: ModalType| old(self)@[t] != id)),
    {
        let ghost before = self.subscribers@;
        let mut kept: Vec<(ModalType, u64)> = Vec::new();
        let mut i: usize = 0;
        while i < self.subscribers.len()
            invariant
                self.subscribers@ == before,
                unique_dialogs(before),
                i <= before.len(),
                unique_dialogs(kept@),
                forall|j: int| 0 <= j < kept@.len() ==> (#[trigger] kept@[j]).1 != id,
                forall|j: int| 0 <= j < kept@.len() ==> exists|k: int| 0 <= k < i && before[k] == #[trigger] kept@[j],
                forall|k: int| 0 <= k < i && (#[trigger] before[k]).1 != id ==> kept@.contains(before[k]),
            decreases before.len() - i,
        {
            let e = self.subscribers[i];
            if e.1 != id {
                proof {
                    assert forall|j: int| 0 <= j < kept@.len() implies (#[trigger] kept@[j]).0 != e.0 by {
                        let k = choose|k: int| 0 <= k < i && before[k] == kept@[j];
                        assert(before[k].0 != before[i as int].0);
                    }
                }
                kept.push(e);
                proof {
                    assert forall|j: int| 0 <= j < kept@.len() implies exists|k: int| 0 <= k < i + 1 && before[k] == #[trigger] kept@[j] by {
                        if j == kept@.len() - 1 {
                            assert(before[i as int] == kept@[j]);
                        } else {
                            let k = choose|k: int| 0 <= k < i && before[k] == kept@[j];
                        }
                    }
                    assert forall|k: int| 0 <= k < i + 1 && (#[trigger] before[k]).1 != id implies kept@.contains(before[k]) by {
                        if k == i {
                            assert(kept@[kept@.len() - 1] == before[k]);
                        } else {
                            let w = choose|w: int| 0 <= w < kept@.len() - 1 && kept@.drop_last()[w] == before[k];
                            assert(kept@[w] == before[k]);
                        }
                    }
                }
            }
            i = i + 1;
        }
        self.subscribers = kept;
        proof {
            let after = self.subscribers@;
            let m = dialog_map(before);
            let target = m.restrict(m.dom().filter(|t: ModalType| m[t] != id));
            assert forall|x: ModalType| #[trigger] dialog_map(after).contains_key(x) <==> target.contains_key(x) by {
                if dialog_map(after).contains_key(x) {
                    let j = choose|j: int| 0 <= j < after.len() && (#[trigger] after[j]).0 == x;
                    let k = choose|k: int| 0 <= k < before.len() && before[k] == after[j];
                    lemma_dialog_at(before, k);
                }
                if target.contains_key(x) {
                    let k = choose|k: int| 0 <= k < before.len() && (#[trigger] before[k]).0 == x;
                    lemma_dialog_at(before, k);
                    assert(after.contains(before[k]));
                    let j = choose|j: int| 0 <= j < after.len() && after[j] == before[k];
                    assert(after[j].0 == x);
                }
            }
            assert forall|x: ModalType| #[trigger] dialog_map(after).contains_key(x) implies dialog_map(after)[x] == target[x] by {
                let j = choose|j: int| 0 <= j < after.len() && (#[trigger] after[j]).0 == x;
                let k = choose|k: int| 0 <= k < before.len() && before[k] == after[j];
                lemma_dialog_at(before, k);
                lemma_dialog_at(after, j);
            }
            assert(dialog_map(after) =~= target);
        }
    }
}

/// After a component registers for a dialog, opening that dialog goes to it.
pub proof fn opening_goes_to_the_registered(m: Map<ModalType, u64>, t: ModalType, id: u64, other: u64)
    ensures
        modal_step(m, ModalRequest::Register(t), id).contains_key(t),
        modal_step(m, ModalRequest::Register(t), id)[t] == id,
        modal_step(modal_step(m, ModalRequest::Register(t), id), ModalRequest::ActivateModal(t), other)
            == modal_step(m, ModalRequest::Register(t), id),
{
}

}
