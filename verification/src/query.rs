use vstd::prelude::*;

use crate::tree::Node;

verus! {

/// Which part of a query a sub-node handed to the query walker's callback
/// comes from; the walk's flags decide which parts are handed over.
#[derive(Clone, Copy, Debug, PartialEq, Eq, Structural)]
pub enum QueryPart {
    /// A clause that is always handed over: the target list, WITH CHECK
    /// options, ON CONFLICT, MERGE actions, RETURNING list, join tree, set
    /// operations, HAVING qual, LIMIT offset and count.
    Clause,
    /// A SortGroupClause list (GROUP BY, WINDOW, ORDER BY, DISTINCT),
    /// handed over only with `EXAMINE_SORT_GROUP`.
    SortGroupList,
    /// A window clause's start or end offset, handed over on its own only
    /// without `EXAMINE_SORT_GROUP` (with it, the whole window list is).
    WindowOffset,
    /// The CTE list, handed over unless `IGNORE_CTE_SUBQUERIES`.
    CteList,
    /// A range-table entry itself, before its contents: handed over only
    /// with `EXAMINE_RTES_BEFORE`, and not with `IGNORE_RANGE_TABLE`.
    RangeEntryBefore,
    /// The subquery of a range-table entry: handed over unless
    /// `IGNORE_RANGE_TABLE` or `IGNORE_RTABLE_SUBQUERIES`.
    RangeSubquery,
    /// The alias vars of a join range-table entry: handed over unless
    /// `IGNORE_RANGE_TABLE` or `IGNORE_JOIN_ALIASES`.
    RangeJoinAliases,
    /// Other contents of a range-table entry (table sample, functions,
    /// table function, VALUES lists, security quals): handed over unless
    /// `IGNORE_RANGE_TABLE`.
    RangeContent,
    /// A range-table entry itself, after its contents: handed over only
    /// with `EXAMINE_RTES_AFTER`, and not with `IGNORE_RANGE_TABLE`.
    RangeEntryAfter,
    /// The group expressions of a GROUP range-table entry (Postgres 18):
    /// handed over unless `IGNORE_RANGE_TABLE` or `IGNORE_GROUP_EXPRS`.
    RangeGroupExprs,
}

/// Whether `part` belongs to the range table.
pub open spec fn is_range_part(part: QueryPart) -> bool {
    match part {
        QueryPart::RangeEntryBefore => true,
        QueryPart::RangeSubquery => true,
        QueryPart::RangeJoinAliases => true,
        QueryPart::RangeContent => true,
        QueryPart::RangeEntryAfter => true,
        QueryPart::RangeGroupExprs => true,
        _ => false,
    }
}

/// `fields` with the range-table fields left out.
pub open spec fn without_range_table(fields: Seq<QueryField>) -> Seq<QueryField>
    decreases fields.len(),
{
    if fields.len() == 0 {
        fields
    } else if is_range_part(fields[0].part) {
        without_range_table(fields.drop_first())
    } else {
        seq![fields[0]] + without_range_table(fields.drop_first())
    }
}

/// One sub-node of a query, with the part it comes from; `None` stands for
/// an empty field.
pub struct QueryField {
    pub part: QueryPart,
    pub node: Option<Node>,
}

/// A query, as the sequence of the sub-nodes the query walker can hand to
/// its callback, in the walker's order. The walk hands them over in the
/// order `fields` gives; that this order is the walker's (for instance, a
/// range-table entry's before-examination ahead of its contents) is up to
/// whoever builds the value.
pub struct Query {
    pub fields: Vec<QueryField>,
}

/// Whether the bit `flag` is set in `flags`.
pub open spec fn has_flag(flags: i32, flag: i32) -> bool {
    flags & flag != 0
}

/// Whether a walk with `flags` hands sub-nodes of `part` to its callback.
pub open spec fn presented(part: QueryPart, flags: i32) -> bool {
    match part {
        QueryPart::Clause => true,
        QueryPart::SortGroupList => has_flag(flags, 0x80),
        QueryPart::WindowOffset => !has_flag(flags, 0x80),
        QueryPart::CteList => !has_flag(flags, 0x02),
        QueryPart::RangeEntryBefore => !has_flag(flags, 0x08) && has_flag(flags, 0x10),
        QueryPart::RangeSubquery => !has_flag(flags, 0x08) && !has_flag(flags, 0x01),
        QueryPart::RangeJoinAliases => !has_flag(flags, 0x08) && !has_flag(flags, 0x04),
        QueryPart::RangeContent => !has_flag(flags, 0x08),
        QueryPart::RangeEntryAfter => !has_flag(flags, 0x08) && has_flag(flags, 0x20),
        QueryPart::RangeGroupExprs => !has_flag(flags, 0x08) && !has_flag(flags, 0x100),
    }
}

/// Flags that control what a query-tree walk hands to its callback.
///
/// The flag set is that of Postgres 18: it includes `IGNORE_GROUP_EXPRS`
/// (0x100), so `all()` is 0x1FF, and `from_bits`, `from_bits_truncate`,
/// `is_all`, `complement` and `!` count that bit as defined. Against
/// Postgres 13 to 17, whose walkers know no such flag, the defined bits are
/// the lower eight (0xFF) only.
#[derive(Clone, Copy, Debug, PartialEq, Eq, Structural)]
pub struct WalkQueryTree {
    bits: i32,
}

impl View for WalkQueryTree {
    type V = i32;

    closed spec fn view(&self) -> i32 {
        self.bits
    }
}

/// The bits of all the flags that [`WalkQueryTree`] defines.
pub open spec fn all_query_walk_bits() -> i32 {
    0x1FF
}

impl WalkQueryTree {
    /// Ignore subqueries in the range table.
    #[allow(non_snake_case)]
    pub fn IGNORE_RTABLE_SUBQUERIES() -> (r: WalkQueryTree)
        ensures
            r@ == 0x01,
    {
        WalkQueryTree { bits: 0x01 }
    }
    /// Ignore subqueries in the CTE list.
    #[allow(non_snake_case)]
    pub fn IGNORE_CTE_SUBQUERIES() -> (r: WalkQueryTree)
        ensures
            r@ == 0x02,
    {
        WalkQueryTree { bits: 0x02 }
    }
    /// Ignore JOIN alias var lists.
    #[allow(non_snake_case)]
    pub fn IGNORE_JOIN_ALIASES() -> (r: WalkQueryTree)
        ensures
            r@ == 0x04,
    {
        WalkQueryTree { bits: 0x04 }
    }
    /// Skip the range table entirely.
    #[allow(non_snake_case)]
    pub fn IGNORE_RANGE_TABLE() -> (r: WalkQueryTree)
        ensures
            r@ == 0x08,
    {
        WalkQueryTree { bits: 0x08 }
    }
    /// Examine range-table entries before their contents.
    #[allow(non_snake_case)]
    pub fn EXAMINE_RTES_BEFORE() -> (r: WalkQueryTree)
        ensures
            r@ == 0x10,
    {
        WalkQueryTree { bits: 0x10 }
    }
    /// Examine range-table entries after their contents.
    #[allow(non_snake_case)]
    pub fn EXAMINE_RTES_AFTER() -> (r: WalkQueryTree)
        ensures
            r@ == 0x20,
    {
        WalkQueryTree { bits: 0x20 }
    }
    /// Do not copy the top Query (meaningful to the mutator only).
    #[allow(non_snake_case)]
    pub fn DONT_COPY_QUERY() -> (r: WalkQueryTree)
        ensures
            r@ == 0x40,
    {
        WalkQueryTree { bits: 0x40 }
    }
    /// Include SortGroupClause lists.
    #[allow(non_snake_case)]
    pub fn EXAMINE_SORT_GROUP() -> (r: WalkQueryTree)
        ensures
            r@ == 0x80,
    {
        WalkQueryTree { bits: 0x80 }
    }

    /// Ignore the group expressions of GROUP range-table entries (Postgres 18).
    #[allow(non_snake_case)]
    pub fn IGNORE_GROUP_EXPRS() -> (r: WalkQueryTree)
        ensures
            r@ == 0x100,
    {
        WalkQueryTree { bits: 0x100 }
    }

    /// No flag set.
    pub fn empty() -> (r: WalkQueryTree)
        ensures
            r@ == 0,
    {
        WalkQueryTree { bits: 0 }
    }

    /// Every defined flag set.
    pub fn all() -> (r: WalkQueryTree)
        ensures
            r@ == all_query_walk_bits(),
    {
        WalkQueryTree { bits: 0x1FF }
    }

    /// The raw bits handed to the walker.
    pub fn bits(&self) -> (r: i32)
        ensures
            r == self@,
    {
        self.bits
    }

    /// The flags with these bits, or `None` when a bit that no flag defines
    /// is set.
    pub fn from_bits(bits: i32) -> (r: Option<WalkQueryTree>)
        ensures
            r matches Some(f) <==> bits & !all_query_walk_bits() == 0,
            r matches Some(f) ==> f@ == bits,
    {
        if bits & !0x1FFi32 == 0 {
            Some(WalkQueryTree { bits })
        } else {
            None
        }
    }

    /// The flags with these bits, dropping the bits that no flag defines.
    pub fn from_bits_truncate(bits: i32) -> (r: WalkQueryTree)
        ensures
            r@ == bits & all_query_walk_bits(),
    {
        WalkQueryTree { bits: bits & 0x1FF }
    }

    /// The flags with exactly these bits, the undefined ones kept.
    pub fn from_bits_retain(bits: i32) -> (r: WalkQueryTree)
        ensures
            r@ == bits,
    {
        WalkQueryTree { bits }
    }

    /// Whether no bit is set.
    pub fn is_empty(&self) -> (r: bool)
        ensures
            r == (self@ == 0),
    {
        self.bits == 0
    }

    /// Whether every defined flag is set.
    pub fn is_all(&self) -> (r: bool)
        ensures
            r == (self@ & all_query_walk_bits() == all_query_walk_bits()),
    {
        self.bits & 0x1FF == 0x1FF
    }

    /// Whether every flag of `other` is set in `self`.
    pub fn contains(&self, other: WalkQueryTree) -> (r: bool)
        ensures
            r == (self@ & other@ == other@),
    {
        self.bits & other.bits == other.bits
    }

    /// Whether some flag of `other` is set in `self`.
    pub fn intersects(&self, other: WalkQueryTree) -> (r: bool)
        ensures
            r == (self@ & other@ != 0),
    {
        self.bits & other.bits != 0
    }

    /// The flags set in either.
    pub fn union(self, other: WalkQueryTree) -> (r: WalkQueryTree)
        ensures
            r@ == self@ | other@,
    {
        WalkQueryTree { bits: self.bits | other.bits }
    }

    /// The flags set in both.
    pub fn intersection(self, other: WalkQueryTree) -> (r: WalkQueryTree)
        ensures
            r@ == self@ & other@,
    {
        WalkQueryTree { bits: self.bits & other.bits }
    }

    /// The flags of `self` that `other` does not set.
    pub fn difference(self, other: WalkQueryTree) -> (r: WalkQueryTree)
        ensures
            r@ == self@ & !other@,
    {
        WalkQueryTree { bits: self.bits & !other.bits }
    }

    /// Whether a walk with these flags hands sub-nodes of `part` to its
    /// callback.
    pub fn presents(&self, part: QueryPart) -> (r: bool)
        ensures
            r == presented(part, self@),
    {
        match part {
            QueryPart::Clause => true,
            QueryPart::SortGroupList => self.bits & 0x80 != 0,
            QueryPart::WindowOffset => self.bits & 0x80 == 0,
            QueryPart::CteList => self.bits & 0x02 == 0,
            QueryPart::RangeEntryBefore => self.bits & 0x08 == 0 && self.bits & 0x10 != 0,
            QueryPart::RangeSubquery => self.bits & 0x08 == 0 && self.bits & 0x01 == 0,
            QueryPart::RangeJoinAliases => self.bits & 0x08 == 0 && self.bits & 0x04 == 0,
            QueryPart::RangeContent => self.bits & 0x08 == 0,
            QueryPart::RangeEntryAfter => self.bits & 0x08 == 0 && self.bits & 0x20 != 0,
            QueryPart::RangeGroupExprs => self.bits & 0x08 == 0 && self.bits & 0x100 == 0,
        }
    }

    /// The defined flags that `self` does not set.
    pub fn complement(self) -> (r: WalkQueryTree)
        ensures
            r@ == !self@ & all_query_walk_bits(),
    {
        WalkQueryTree { bits: !self.bits & 0x1FF }
    }

    /// The flags set in exactly one of the two.
    pub fn symmetric_difference(self, other: WalkQueryTree) -> (r: WalkQueryTree)
        ensures
            r@ == self@ ^ other@,
    {
        WalkQueryTree { bits: self.bits ^ other.bits }
    }

    /// Flips the flags of `other`.
    pub fn toggle(&mut self, other: WalkQueryTree)
        ensures
            final(self)@ == old(self)@ ^ other@,
    {
        self.bits = self.bits ^ other.bits;
    }

    /// Sets the flags of `other` when `value`, clears them otherwise.
    pub fn set(&mut self, other: WalkQueryTree, value: bool)
        ensures
            final(self)@ == if value {
                old(self)@ | other@
            } else {
                old(self)@ & !other@
            },
    {
        if value {
            self.bits = self.bits | other.bits;
        } else {
            self.bits = self.bits & !other.bits;
        }
    }

    /// Sets the flags of `other`.
    pub fn insert(&mut self, other: WalkQueryTree)
        ensures
            final(self)@ == old(self)@ | other@,
    {
        self.bits = self.bits | other.bits;
    }

    /// Clears the flags of `other`.
    pub fn remove(&mut self, other: WalkQueryTree)
        ensures
            final(self)@ == old(self)@ & !other@,
    {
        self.bits = self.bits & !other.bits;
    }
}

impl Default for WalkQueryTree {
    /// No flag set.
    fn default() -> (r: WalkQueryTree)
        ensures
            r@ == 0,
    {
        WalkQueryTree { bits: 0 }
    }
}

/// The flags with exactly the bits `bits`.
pub closed spec fn flags_of_bits(bits: i32) -> WalkQueryTree {
    WalkQueryTree { bits }
}

/// The flags made of `bits` have those bits.
pub broadcast proof fn lemma_flags_of_bits(bits: i32)
    ensures
        #[trigger] flags_of_bits(bits)@ == bits,
{
}

/// `a | b`: the flags set in either.
impl core::ops::BitOr for WalkQueryTree {
    type Output = WalkQueryTree;

    fn bitor(self, rhs: WalkQueryTree) -> (r: WalkQueryTree) {
        WalkQueryTree { bits: self.bits | rhs.bits }
    }
}

impl vstd::std_specs::ops::BitOrSpecImpl for WalkQueryTree {
    open spec fn obeys_bitor_spec() -> bool {
        true
    }

    open spec fn bitor_req(self, rhs: WalkQueryTree) -> bool {
        true
    }

    open spec fn bitor_spec(self, rhs: WalkQueryTree) -> WalkQueryTree {
        flags_of_bits(self@ | rhs@)
    }
}

/// `a & b`: the flags set in both.
impl core::ops::BitAnd for WalkQueryTree {
    type Output = WalkQueryTree;

    fn bitand(self, rhs: WalkQueryTree) -> (r: WalkQueryTree) {
        WalkQueryTree { bits: self.bits & rhs.bits }
    }
}

impl vstd::std_specs::ops::BitAndSpecImpl for WalkQueryTree {
    open spec fn obeys_bitand_spec() -> bool {
        true
    }

    open spec fn bitand_req(self, rhs: WalkQueryTree) -> bool {
        true
    }

    open spec fn bitand_spec(self, rhs: WalkQueryTree) -> WalkQueryTree {
        flags_of_bits(self@ & rhs@)
    }
}

/// `a ^ b`: the flags set in exactly one of the two.
impl core::ops::BitXor for WalkQueryTree {
    type Output = WalkQueryTree;

    fn bitxor(self, rhs: WalkQueryTree) -> (r: WalkQueryTree) {
        WalkQueryTree { bits: self.bits ^ rhs.bits }
    }
}

impl vstd::std_specs::ops::BitXorSpecImpl for WalkQueryTree {
    open spec fn obeys_bitxor_spec() -> bool {
        true
    }

    open spec fn bitxor_req(self, rhs: WalkQueryTree) -> bool {
        true
    }

    open spec fn bitxor_spec(self, rhs: WalkQueryTree) -> WalkQueryTree {
        flags_of_bits(self@ ^ rhs@)
    }
}

/// `a - b`: the flags of `a` that `b` does not set.
impl core::ops::Sub for WalkQueryTree {
    type Output = WalkQueryTree;

    fn sub(self, rhs: WalkQueryTree) -> (r: WalkQueryTree) {
        WalkQueryTree { bits: self.bits & !rhs.bits }
    }
}

impl vstd::std_specs::ops::SubSpecImpl for WalkQueryTree {
    open spec fn obeys_sub_spec() -> bool {
        true
    }

    open spec fn sub_req(self, rhs: WalkQueryTree) -> bool {
        true
    }

    open spec fn sub_spec(self, rhs: WalkQueryTree) -> WalkQueryTree {
        flags_of_bits(self@ & !rhs@)
    }
}

/// `!a`: the defined flags that `a` does not set.
impl core::ops::Not for WalkQueryTree {
    type Output = WalkQueryTree;

    fn not(self) -> (r: WalkQueryTree) {
        WalkQueryTree { bits: !self.bits & 0x1FF }
    }
}

impl vstd::std_specs::ops::NotSpecImpl for WalkQueryTree {
    open spec fn obeys_not_spec() -> bool {
        true
    }

    open spec fn not_req(self) -> bool {
        true
    }

    open spec fn not_spec(self) -> WalkQueryTree {
        flags_of_bits(!self@ & all_query_walk_bits())
    }
}

} // verus!
