//! Who caused a change of volume.
//!
//! Every change carries the identifier that its author handed in. The proxy marks its
//! own writes, so that it can tell them from what other programs do.
use crate::platform::same_guid;
use vstd::prelude::*;

verus! {

/// A globally unique identifier, by its four fields.
#[derive(Clone, Copy, Debug, PartialEq, Eq)]
pub struct ContextId {
    pub data1: u32,
    pub data2: u16,
    pub data3: u16,
    pub data4: [u8; 8],
}

impl ContextId {
    /// The two identifiers agree in every field.
    pub open spec fn same(self, other: ContextId) -> bool {
        &&& self.data1 == other.data1
        &&& self.data2 == other.data2
        &&& self.data3 == other.data3
        &&& self.data4@ == other.data4@
    }

    /// The identifier that the proxy marks its own writes with:
    /// 7A3B5C1D-E2F4-4A6B-8C9D-AEBFC0D1E2F3.
    pub open spec fn is_own(self) -> bool {
        &&& self.data1 == 0x7A3B_5C1D
        &&& self.data2 == 0xE2F4
        &&& self.data3 == 0x4A6B
        &&& self.data4@ == seq![0x8Cu8, 0x9D, 0xAE, 0xBF, 0xC0, 0xD1, 0xE2, 0xF3]
    }

    /// The mark of the proxy's own writes, as a value.
    pub open spec fn of_own() -> ContextId {
        ContextId {
            data1: 0x7A3B_5C1D,
            data2: 0xE2F4,
            data3: 0x4A6B,
            data4: [0x8C, 0x9D, 0xAE, 0xBF, 0xC0, 0xD1, 0xE2, 0xF3],
        }
    }

    /// The identifier of the audio session that the proxy opens:
    /// A1B2C3D4-E5F6-7890-ABCD-EF0123456789.
    pub open spec fn of_session() -> ContextId {
        ContextId {
            data1: 0xA1B2_C3D4,
            data2: 0xE5F6,
            data3: 0x7890,
            data4: [0xAB, 0xCD, 0xEF, 0x01, 0x23, 0x45, 0x67, 0x89],
        }
    }

    /// The mark of the proxy's own writes.
    pub fn own() -> (id: ContextId)
        ensures
            id == ContextId::of_own(),
            id.is_own(),
    {
        ContextId {
            data1: 0x7A3B_5C1D,
            data2: 0xE2F4,
            data3: 0x4A6B,
            data4: [0x8C, 0x9D, 0xAE, 0xBF, 0xC0, 0xD1, 0xE2, 0xF3],
        }
    }

    /// The identifier of the proxy's audio session.
    pub fn session() -> (id: ContextId)
        ensures
            id == ContextId::of_session(),
    {
        ContextId {
            data1: 0xA1B2_C3D4,
            data2: 0xE5F6,
            data3: 0x7890,
            data4: [0xAB, 0xCD, 0xEF, 0x01, 0x23, 0x45, 0x67, 0x89],
        }
    }
}

/// The proxy's mark is the one that it knows its own writes by.
pub proof fn lemma_own_mark()
    ensures
        ContextId::of_own().is_own(),
        made_by_proxy(Some(ContextId::of_own())),
        !made_by_proxy(Some(ContextId::of_session())),
        !made_by_proxy(None),
{
    assert(ContextId::of_own().data4@ =~= seq![
        0x8Cu8,
        0x9D,
        0xAE,
        0xBF,
        0xC0,
        0xD1,
        0xE2,
        0xF3,
    ]);
}

/// A change is the proxy's own exactly where it names an author, and every field of the
/// author's identifier is that of 7A3B5C1D-E2F4-4A6B-8C9D-AEBFC0D1E2F3. Whoever differs in
/// any field is another program.
pub proof fn lemma_who_is_own(author: Option<ContextId>)
    ensures
        made_by_proxy(author) == (author matches Some(id) && {
            &&& id.data1 == 2050710557
            &&& id.data2 == 58100
            &&& id.data3 == 19051
            &&& id.data4@.len() == 8
            &&& id.data4@[0] == 140 && id.data4@[1] == 157
            &&& id.data4@[2] == 174 && id.data4@[3] == 191
            &&& id.data4@[4] == 192 && id.data4@[5] == 209
            &&& id.data4@[6] == 226 && id.data4@[7] == 243
        }),
{
    if let Some(id) = author {
        let mark = seq![0x8Cu8, 0x9D, 0xAE, 0xBF, 0xC0, 0xD1, 0xE2, 0xF3];
        if id.data4@[0] == 140 && id.data4@[1] == 157 && id.data4@[2] == 174 && id.data4@[3]
            == 191 && id.data4@[4] == 192 && id.data4@[5] == 209 && id.data4@[6] == 226
            && id.data4@[7] == 243 {
            assert(id.data4@ =~= mark);
        }
    }
}

/// Identifiers are the same exactly where they agree in every field and every byte.
pub proof fn lemma_same_in_every_byte(a: ContextId, b: ContextId)
    ensures
        a.same(b) == {
            &&& a.data1 == b.data1
            &&& a.data2 == b.data2
            &&& a.data3 == b.data3
            &&& forall|i: int| 0 <= i < 8 ==> #[trigger] a.data4@[i] == b.data4@[i]
        },
        a.same(b) == b.same(a),
        a.same(a),
{
    if forall|i: int| 0 <= i < 8 ==> #[trigger] a.data4@[i] == b.data4@[i] {
        assert(a.data4@ =~= b.data4@);
    }
}

/// The proxy's audio session is A1B2C3D4-E5F6-7890-ABCD-EF0123456789, by its fields.
pub proof fn lemma_session_identifier()
    ensures
        ({
            let id = ContextId::of_session();
            &&& id.data1 == 2712847316
            &&& id.data2 == 58870
            &&& id.data3 == 30864
            &&& id.data4@ == seq![171u8, 205, 239, 1, 35, 69, 103, 137]
        }),
{
    assert(ContextId::of_session().data4@ =~= seq![171u8, 205, 239, 1, 35, 69, 103, 137]);
}

/// The change carries the proxy's own mark.
pub open spec fn made_by_proxy(author: Option<ContextId>) -> bool {
    author matches Some(id) && id.is_own()
}

/// Tells the proxy's own writes from those of other programs. A change need not name
/// its author.
pub fn is_own_write(author: &Option<ContextId>) -> (own: bool)
    ensures
        own == made_by_proxy(*author),
        own == (author matches Some(id) && id.data1 == 0x7A3B_5C1D && id.data2 == 0xE2F4
            && id.data3 == 0x4A6B && id.data4@ == seq![
            0x8Cu8,
            0x9D,
            0xAE,
            0xBF,
            0xC0,
            0xD1,
            0xE2,
            0xF3,
        ]),
{
    match author {
        Some(id) => {
            let mark = ContextId::own();
            same_guid(id, &mark)
        },
        None => false,
    }
}

} // verus!
