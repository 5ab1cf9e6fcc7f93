//! Cutting an object into the parts of a multipart transfer.

use crate::config::{
    MULTIPART_MAX_OBJECT_SIZE, MULTIPART_MAX_PARTS, MULTIPART_MAX_PART_SIZE,
    MULTIPART_MIN_PART_SIZE,
};
use crate::error;
use crate::error::{S3Error, S3ErrorView};
use crate::text;
use crate::text::{append_decimal, same_text};
use vstd::prelude::*;

verus! {

/// `a / b`, rounded up.
pub open spec fn ceil_div(a: int, b: int) -> int
    recommends
        b > 0,
{
    if a % b == 0 {
        a / b
    } else {
        a / b + 1
    }
}

/// How an object is cut into parts: all of them `part_size` bytes long, but for the last one,
/// which may be shorter.
#[derive(Clone, Copy, Debug)]
pub struct MultipartPlan {
    pub part_size: u64,
    pub part_count: u64,
    pub object_size: u64,
}

/// One part: its number, counted from 1, and the bytes `start..end` of the object.
#[derive(Clone, Copy, Debug)]
pub struct MultipartPart {
    pub number: i32,
    pub start: u64,
    pub end: u64,
}

impl MultipartPart {
    /// The part holds at least one byte.
    pub open spec fn wf(self) -> bool {
        self.number >= 1 && self.start < self.end
    }

    /// The number of bytes of the part.
    pub fn length(&self) -> (length: u64)
        requires
            self.start <= self.end,
        ensures
            length == self.end - self.start,
    {
        self.end - self.start
    }
}

impl MultipartPlan {
    /// The parts are as many as it takes to hold the object, and not more than part numbers can
    /// count.
    pub open spec fn wf(self) -> bool {
        &&& self.part_size > 0
        &&& self.part_count == ceil_div(self.object_size as int, self.part_size as int)
        &&& self.part_count <= i32::MAX
    }

    /// The part at an index, counted from 0.
    pub open spec fn part_spec(self, index: int) -> MultipartPart {
        let end = (index + 1) * self.part_size;
        MultipartPart {
            number: (index + 1) as i32,
            start: (index * self.part_size) as u64,
            end: if end <= self.object_size {
                end as u64
            } else {
                self.object_size
            },
        }
    }

    /// All parts, in order.
    pub open spec fn parts_spec(self) -> Seq<MultipartPart> {
        Seq::new(self.part_count as nat, |index: int| self.part_spec(index))
    }
}

/// Where the part at `index` begins and whether it is the last one, against the object's size.
proof fn lemma_part_bounds(plan: MultipartPlan, index: int)
    requires
        plan.wf(),
        0 <= index < plan.part_count,
    ensures
        0 <= index * plan.part_size < plan.object_size,
        (index + 1) * plan.part_size == index * plan.part_size + plan.part_size,
        index + 1 < plan.part_count ==> (index + 1) * plan.part_size < plan.object_size,
        index + 1 == plan.part_count ==> plan.object_size <= (index + 1) * plan.part_size,
{
    let size = plan.object_size as int;
    let step = plan.part_size as int;
    let whole = size / step;
    let rest = size % step;
    vstd::arithmetic::div_mod::lemma_fundamental_div_mod(size, step);
    assert(size == step * whole + rest);
    vstd::arithmetic::div_mod::lemma_mod_bound(size, step);
    assert(0 <= index * step) by (nonlinear_arith)
        requires
            0 <= index,
            step > 0,
    ;
    assert((index + 1) * step == index * step + step) by (nonlinear_arith);
    assert((index + 2) * step == index * step + 2 * step) by (nonlinear_arith);
    assert(index + 1 <= whole ==> (index + 1) * step <= step * whole) by (nonlinear_arith)
        requires
            step > 0,
    ;
    assert(index + 2 <= whole ==> (index + 2) * step <= step * whole) by (nonlinear_arith)
        requires
            step > 0,
    ;
    assert(index == whole ==> index * step == step * whole) by (nonlinear_arith);
    assert(index + 1 == whole ==> (index + 1) * step == step * whole) by (nonlinear_arith);
}

impl MultipartPlan {
    /// What a plan for an object comes to, given the part size asked for and, where there is
    /// one, the limit on the number of parts. The part size is raised where it takes more to
    /// stay within the limit.
    pub open spec fn planned(
        object_size: u64,
        requested_part_size: u64,
        max_parts: Option<u64>,
    ) -> Result<MultipartPlan, S3ErrorView> {
        if requested_part_size == 0 {
            Err(S3ErrorView::ValidationError("multipart part size must be greater than zero"@))
        } else if max_parts == Some(0u64) {
            Err(
                S3ErrorView::ValidationError(
                    "multipart maximum part count must be greater than zero"@,
                ),
            )
        } else {
            let least = match max_parts {
                Some(max_parts) => ceil_div(object_size as int, max_parts as int),
                None => 0,
            };
            let part_size = if requested_part_size < least {
                least
            } else {
                requested_part_size as int
            };
            let part_count = ceil_div(object_size as int, part_size);
            if part_count > i32::MAX {
                Err(
                    S3ErrorView::ValidationError(
                        "multipart part count "@ + text::decimal(part_count as nat)
                            + " exceeds supported maximum "@ + text::decimal(i32::MAX as nat),
                    ),
                )
            } else {
                Ok(
                    MultipartPlan {
                        part_size: part_size as u64,
                        part_count: part_count as u64,
                        object_size,
                    },
                )
            }
        }
    }

    /// What the plan of an upload comes to: the part size asked for is brought into the range
    /// that S3 accepts, and the number of parts kept within its limit.
    pub open spec fn planned_upload(object_size: u64, requested_part_size: u64) -> Result<
        MultipartPlan,
        S3ErrorView,
    > {
        if object_size > MULTIPART_MAX_OBJECT_SIZE {
            Err(
                S3ErrorView::ValidationError(
                    "object size "@ + text::decimal(object_size as nat) + " exceeds S3 maximum "@
                        + text::decimal(MULTIPART_MAX_OBJECT_SIZE as nat),
                ),
            )
        } else {
            Self::planned(
                object_size,
                if requested_part_size < MULTIPART_MIN_PART_SIZE {
                    MULTIPART_MIN_PART_SIZE
                } else if requested_part_size > MULTIPART_MAX_PART_SIZE {
                    MULTIPART_MAX_PART_SIZE
                } else {
                    requested_part_size
                },
                Some(MULTIPART_MAX_PARTS),
            )
        }
    }

    /// Plans the download of an object, in parts of the size asked for.
    pub fn for_download(object_size: u64, requested_part_size: u64) -> (plan: Result<
        MultipartPlan,
        S3Error,
    >)
        ensures
            error::result_view(plan) == Self::planned(object_size, requested_part_size, None),
            plan matches Ok(plan) ==> plan.wf(),
    {
        Self::new(object_size, requested_part_size, None)
    }

    /// Plans the upload or copy of an object, in parts of about the size asked for, within the
    /// limits of S3.
    pub fn for_upload(object_size: u64, requested_part_size: u64) -> (plan: Result<
        MultipartPlan,
        S3Error,
    >)
        ensures
            error::result_view(plan) == Self::planned_upload(object_size, requested_part_size),
            plan matches Ok(plan) ==> plan.wf(),
            plan is Ok <==> object_size <= MULTIPART_MAX_OBJECT_SIZE,
    {
        if object_size > MULTIPART_MAX_OBJECT_SIZE {
            let mut message = "object size ".to_owned();
            append_decimal(&mut message, object_size);
            message.append(" exceeds S3 maximum ");
            append_decimal(&mut message, MULTIPART_MAX_OBJECT_SIZE);
            return Err(S3Error::ValidationError(message));
        }
        let part_size: u64 = if requested_part_size < MULTIPART_MIN_PART_SIZE {
            MULTIPART_MIN_PART_SIZE
        } else if requested_part_size > MULTIPART_MAX_PART_SIZE {
            MULTIPART_MAX_PART_SIZE
        } else {
            requested_part_size
        };
        proof {
            lemma_upload_plan_is_within_limits(object_size, requested_part_size);
        }
        Self::new(object_size, part_size, Some(MULTIPART_MAX_PARTS))
    }

    /// Plans the transfer of an object.
    pub fn new(object_size: u64, requested_part_size: u64, max_parts: Option<u64>) -> (plan: Result<
        MultipartPlan,
        S3Error,
    >)
        ensures
            error::result_view(plan) == Self::planned(object_size, requested_part_size, max_parts),
            plan matches Ok(plan) ==> plan.wf(),
    {
        if requested_part_size == 0 {
            return Err(
                S3Error::ValidationError(
                    "multipart part size must be greater than zero".to_owned(),
                ),
            );
        }
        let least: u64 = match max_parts {
            Some(max_parts) => {
                if max_parts == 0 {
                    return Err(
                        S3Error::ValidationError(
                            "multipart maximum part count must be greater than zero".to_owned(),
                        ),
                    );
                }
                div_ceil(object_size, max_parts)
            },
            None => 0,
        };
        let part_size: u64 = if requested_part_size < least {
            least
        } else {
            requested_part_size
        };
        let part_count: u64 = div_ceil(object_size, part_size);
        if part_count > i32::MAX as u64 {
            let mut message = "multipart part count ".to_owned();
            append_decimal(&mut message, part_count);
            message.append(" exceeds supported maximum ");
            append_decimal(&mut message, i32::MAX as u64);
            return Err(S3Error::ValidationError(message));
        }
        Ok(MultipartPlan { part_size, part_count, object_size })
    }

    /// The part at an index, counted from 0.
    pub fn part(&self, index: u64) -> (part: MultipartPart)
        requires
            self.wf(),
            index < self.part_count,
        ensures
            part == self.part_spec(index as int),
            part.wf(),
            part.number == index + 1,
            part.start == index * self.part_size,
            part.end <= self.object_size,
    {
        proof {
            lemma_part_bounds(*self, index as int);
        }
        let start: u64 = index * self.part_size;
        let end: u64 = if self.object_size - start <= self.part_size {
            self.object_size
        } else {
            start + self.part_size
        };
        MultipartPart { number: (index + 1) as i32, start, end }
    }

    /// All parts, in order.
    pub fn parts(&self) -> (parts: Vec<MultipartPart>)
        requires
            self.wf(),
        ensures
            parts@ == self.parts_spec(),
    {
        let mut parts: Vec<MultipartPart> = Vec::new();
        let mut index: u64 = 0;
        while index < self.part_count
            invariant
                self.wf(),
                index <= self.part_count,
                parts@ == self.parts_spec().take(index as int),
            decreases self.part_count - index,
        {
            parts.push(self.part(index));
            index = index + 1;
        }
        parts
    }
}

/// `a / b`, rounded up.
fn div_ceil(a: u64, b: u64) -> (q: u64)
    requires
        b > 0,
    ensures
        q == ceil_div(a as int, b as int),
        q <= a,
        a > 0 ==> q > 0,
{
    proof {
        let whole = (a / b) as int;
        vstd::arithmetic::div_mod::lemma_fundamental_div_mod(a as int, b as int);
        assert(whole <= a && (a % b > 0 ==> whole < a) && (a > 0 && a % b == 0 ==> whole > 0))
            by (nonlinear_arith)
            requires
                a == b * whole + a % b,
                b > 0,
                a >= 0,
                0 <= whole,
                0 <= a % b,
        ;
    }
    if a % b == 0 {
        a / b
    } else {
        a / b + 1
    }
}

/// `n` parts of a size hold an object exactly if the size is not less than the object's size
/// divided by `n`, rounded up.
proof fn lemma_ceil_div_limits(size: int, n: int, step: int)
    requires
        size >= 0,
        n > 0,
        step > 0,
        ceil_div(size, n) <= step,
    ensures
        ceil_div(size, step) <= n,
{
    let q = size / n;
    let r = size % n;
    vstd::arithmetic::div_mod::lemma_fundamental_div_mod(size, n);
    vstd::arithmetic::div_mod::lemma_mod_bound(size, n);
    assert(size <= n * step) by (nonlinear_arith)
        requires
            size == n * q + r,
            0 <= r < n,
            (if r == 0 {
                q
            } else {
                q + 1
            }) <= step,
    ;
    let w = size / step;
    let rest = size % step;
    vstd::arithmetic::div_mod::lemma_fundamental_div_mod(size, step);
    vstd::arithmetic::div_mod::lemma_mod_bound(size, step);
    assert(w <= n && (rest > 0 ==> w < n)) by (nonlinear_arith)
        requires
            size == step * w + rest,
            0 <= rest < step,
            size <= n * step,
    ;
}

/// A plan with a limit on the number of parts stays within it.
pub proof fn lemma_plan_keeps_part_limit(
    object_size: u64,
    requested_part_size: u64,
    max_parts: u64,
)
    ensures
        MultipartPlan::planned(object_size, requested_part_size, Some(max_parts)) matches Ok(plan)
            ==> plan.part_count <= max_parts && plan.part_size >= requested_part_size,
{
    if requested_part_size > 0 && max_parts > 0 {
        let least = ceil_div(object_size as int, max_parts as int);
        let part_size = if requested_part_size < least {
            least
        } else {
            requested_part_size as int
        };
        lemma_ceil_div_limits(object_size as int, max_parts as int, part_size);
        lemma_ceil_div_at_most(object_size as int, max_parts as int);
    }
}

/// Dividing by a positive number and rounding up does not make a number larger.
proof fn lemma_ceil_div_at_most(a: int, b: int)
    requires
        a >= 0,
        b > 0,
    ensures
        0 <= ceil_div(a, b) <= a,
{
    let q = a / b;
    let r = a % b;
    vstd::arithmetic::div_mod::lemma_fundamental_div_mod(a, b);
    vstd::arithmetic::div_mod::lemma_mod_bound(a, b);
    assert(0 <= q <= a && (r > 0 ==> q < a)) by (nonlinear_arith)
        requires
            a == b * q + r,
            0 <= r < b,
            a >= 0,
    ;
}

/// A plan is for the object that it was asked for, and its parts hold it.
pub proof fn lemma_plan_is_for_the_object(
    object_size: u64,
    requested_part_size: u64,
    max_parts: Option<u64>,
)
    ensures
        MultipartPlan::planned(object_size, requested_part_size, max_parts) matches Ok(plan)
            ==> plan.wf() && plan.object_size == object_size,
{
    if let Ok(plan) = MultipartPlan::planned(object_size, requested_part_size, max_parts) {
        if let Some(max_parts) = max_parts {
            lemma_ceil_div_at_most(object_size as int, max_parts as int);
        }
        lemma_ceil_div_at_most(object_size as int, plan.part_size as int);
    }
}

/// An object that S3 can hold can always be uploaded, and the plan of its upload keeps every
/// limit of S3: at most 10,000 parts, of at most 5 GiB each, and of at least 5 MiB each but for
/// the last.
pub proof fn lemma_upload_plan_is_within_limits(object_size: u64, requested_part_size: u64)
    requires
        object_size <= MULTIPART_MAX_OBJECT_SIZE,
    ensures
        MultipartPlan::planned_upload(object_size, requested_part_size) matches Ok(plan)
            && plan.part_count <= MULTIPART_MAX_PARTS && MULTIPART_MIN_PART_SIZE <= plan.part_size
            <= MULTIPART_MAX_PART_SIZE,
{
    let size = object_size as int;
    let parts = MULTIPART_MAX_PARTS as int;
    let requested = if requested_part_size < MULTIPART_MIN_PART_SIZE {
        MULTIPART_MIN_PART_SIZE
    } else if requested_part_size > MULTIPART_MAX_PART_SIZE {
        MULTIPART_MAX_PART_SIZE
    } else {
        requested_part_size
    };
    lemma_ceil_div_at_most(size, parts);
    lemma_plan_keeps_part_limit(object_size, requested, MULTIPART_MAX_PARTS);
    let part_size = if requested < ceil_div(size, parts) {
        ceil_div(size, parts)
    } else {
        requested as int
    };
    lemma_ceil_div_limits(size, parts, part_size);
}

/// The part at `index` against the part before it and the object's size.
proof fn lemma_part_shape(plan: MultipartPlan, index: int)
    requires
        plan.wf(),
        0 <= index < plan.part_count,
    ensures
        ({
            let part = plan.part_spec(index);
            &&& plan.parts_spec()[index] == part
            &&& part.number == index + 1
            &&& part.start == index * plan.part_size
            &&& 0 < part.end - part.start <= plan.part_size
            &&& part.end <= plan.object_size
            &&& index == 0 ==> part.start == 0
            &&& index > 0 ==> plan.part_spec(index - 1).end == part.start
            &&& index + 1 < plan.part_count ==> part.end - part.start == plan.part_size
            &&& index + 1 == plan.part_count ==> part.end == plan.object_size
        }),
{
    lemma_part_bounds(plan, index);
    if index > 0 {
        lemma_part_bounds(plan, index - 1);
    }
}

/// An object has no parts exactly if it has no bytes.
proof fn lemma_empty_object_has_no_parts(plan: MultipartPlan)
    requires
        plan.wf(),
    ensures
        plan.part_count == 0 <==> plan.object_size == 0,
{
    let size = plan.object_size as int;
    let step = plan.part_size as int;
    vstd::arithmetic::div_mod::lemma_fundamental_div_mod(size, step);
    vstd::arithmetic::div_mod::lemma_mod_bound(size, step);
    vstd::arithmetic::div_mod::lemma_div_pos_is_pos(size, step);
    if size == 0 {
        vstd::arithmetic::div_mod::lemma_div_basics(step);
        vstd::arithmetic::div_mod::lemma_small_mod(0, step as nat);
    }
    assert(step * 0 == 0);
}

/// The parts of a plan, in order, are numbered from 1, hold at least one byte and at most
/// `part_size` bytes each, begin at the start of the object, follow on each other without gap or
/// overlap, and end with the object.
pub proof fn lemma_parts_partition_object(plan: MultipartPlan)
    requires
        plan.wf(),
    ensures
        plan.part_count == 0 <==> plan.object_size == 0,
        plan.parts_spec().len() == plan.part_count,
        plan.part_count > 0 ==> plan.parts_spec().first().start == 0
            && plan.parts_spec().last().end == plan.object_size,
        forall|i: int|
            #![trigger plan.parts_spec()[i]]
            0 <= i < plan.part_count ==> {
                let part = plan.parts_spec()[i];
                &&& part.number == i + 1
                &&& part.start == i * plan.part_size
                &&& 0 < part.end - part.start <= plan.part_size
                &&& i + 1 < plan.part_count ==> part.end - part.start == plan.part_size
            },
        forall|i: int, j: int|
            #![trigger plan.parts_spec()[i], plan.parts_spec()[j]]
            0 <= i && j == i + 1 && j < plan.part_count ==> plan.parts_spec()[i].end
                == plan.parts_spec()[j].start,
{
    lemma_empty_object_has_no_parts(plan);
    if plan.part_count > 0 {
        lemma_part_shape(plan, 0);
        lemma_part_shape(plan, plan.part_count - 1);
    }
    assert forall|i: int|
        #![trigger plan.parts_spec()[i]]
        0 <= i < plan.part_count implies {
        let part = plan.parts_spec()[i];
        &&& part.number == i + 1
        &&& part.start == i * plan.part_size
        &&& 0 < part.end - part.start <= plan.part_size
        &&& i + 1 < plan.part_count ==> part.end - part.start == plan.part_size
    } by {
        lemma_part_shape(plan, i);
    }
    assert forall|i: int, j: int|
        #![trigger plan.parts_spec()[i], plan.parts_spec()[j]]
        0 <= i && j == i + 1 && j < plan.part_count implies plan.parts_spec()[i].end
        == plan.parts_spec()[j].start by {
        lemma_part_shape(plan, i);
        lemma_part_shape(plan, j);
    }
}

/// Every byte of the object lies in exactly one part: the one whose index is its offset divided
/// by the part size.
pub proof fn lemma_each_byte_is_in_one_part(plan: MultipartPlan, offset: int)
    requires
        plan.wf(),
        0 <= offset < plan.object_size,
    ensures
        0 <= offset / (plan.part_size as int) < plan.part_count,
        forall|i: int|
            #![trigger plan.parts_spec()[i]]
            0 <= i < plan.part_count ==> (plan.parts_spec()[i].start <= offset
                < plan.parts_spec()[i].end <==> i == offset / (plan.part_size as int)),
{
    let size = plan.object_size as int;
    let step = plan.part_size as int;
    let home = offset / step;
    vstd::arithmetic::div_mod::lemma_fundamental_div_mod(offset, step);
    vstd::arithmetic::div_mod::lemma_mod_bound(offset, step);
    vstd::arithmetic::div_mod::lemma_div_pos_is_pos(offset, step);
    vstd::arithmetic::div_mod::lemma_fundamental_div_mod(size, step);
    vstd::arithmetic::div_mod::lemma_mod_bound(size, step);
    let whole = size / step;
    let rest = size % step;
    assert(home <= whole && (rest == 0 ==> home < whole)) by (nonlinear_arith)
        requires
            step > 0,
            size == step * whole + rest,
            0 <= rest < step,
            offset == step * home + offset % step,
            0 <= offset % step < step,
            offset < size,
    ;
    assert forall|i: int|
        #![trigger plan.parts_spec()[i]]
        0 <= i < plan.part_count implies (plan.parts_spec()[i].start <= offset
        < plan.parts_spec()[i].end <==> i == offset / (plan.part_size as int)) by {
        lemma_part_bounds(plan, i);
        assert(i < home ==> (i + 1) * step <= step * home) by (nonlinear_arith)
            requires
                step > 0,
        ;
        assert(i > home ==> i * step >= step * home + step) by (nonlinear_arith)
            requires
                step > 0,
        ;
        assert(i == home ==> i * step == step * home) by (nonlinear_arith);
    }
}

/// The bytes of a part.
pub open spec fn part_bytes(object: Seq<u8>, part: MultipartPart) -> Seq<u8> {
    object.subrange(part.start as int, part.end as int)
}

/// What is put together from the first `n` parts of a plan, one after another.
pub open spec fn joined_parts(plan: MultipartPlan, object: Seq<u8>, n: int) -> Seq<u8>
    decreases n,
{
    if n <= 0 {
        Seq::empty()
    } else {
        joined_parts(plan, object, n - 1) + part_bytes(object, plan.parts_spec()[n - 1])
    }
}

/// The first parts of an object make its beginning.
proof fn lemma_joined_parts_prefix(plan: MultipartPlan, object: Seq<u8>, n: int)
    requires
        plan.wf(),
        object.len() == plan.object_size,
        0 <= n <= plan.part_count,
    ensures
        n == 0 ==> joined_parts(plan, object, n) == Seq::<u8>::empty(),
        n > 0 ==> joined_parts(plan, object, n) == object.take(plan.part_spec(n - 1).end as int),
    decreases n,
{
    if n > 0 {
        lemma_joined_parts_prefix(plan, object, n - 1);
        lemma_part_shape(plan, n - 1);
        let part = plan.part_spec(n - 1);
        assert(joined_parts(plan, object, n - 1) == object.take(part.start as int));
        assert(object.take(part.start as int) + part_bytes(object, part) == object.take(
            part.end as int,
        ));
    }
}

/// The parts of an object, put one after another in the order of their numbers, give the object
/// back. This is what the service does when a multipart upload is completed.
pub proof fn lemma_joined_parts_give_object(plan: MultipartPlan, object: Seq<u8>)
    requires
        plan.wf(),
        object.len() == plan.object_size,
    ensures
        joined_parts(plan, object, plan.part_count as int) == object,
{
    lemma_joined_parts_prefix(plan, object, plan.part_count as int);
    lemma_empty_object_has_no_parts(plan);
    if plan.part_count > 0 {
        lemma_part_shape(plan, plan.part_count - 1);
    }
    assert(object.take(object.len() as int) == object);
}

/// A file after `data` was written to it at `offset`. Writing past the end makes the file longer,
/// and leaves zeros where nothing was written. Writing no data leaves the file as it is.
pub open spec fn written_at(file: Seq<u8>, offset: int, data: Seq<u8>) -> Seq<u8> {
    let end = offset + data.len();
    if data.len() == 0 {
        file
    } else {
        Seq::new(
            if end > file.len() {
                end as nat
            } else {
                file.len()
            },
            |i: int|
                if offset <= i < end {
                    data[i - offset]
                } else if i < file.len() {
                    file[i]
                } else {
                    0
                },
        )
    }
}

/// Writing two pieces, the second where the first ends, is the same as writing them as one.
pub proof fn lemma_pieces_are_written_as_one(
    file: Seq<u8>,
    offset: int,
    first: Seq<u8>,
    second: Seq<u8>,
)
    requires
        0 <= offset,
    ensures
        written_at(written_at(file, offset, first), offset + first.len(), second) == written_at(
            file,
            offset,
            first + second,
        ),
{
    if first.len() == 0 {
        assert(first + second =~= second);
    } else if second.len() == 0 {
        assert(first + second =~= first);
    } else {
        assert(written_at(written_at(file, offset, first), offset + first.len(), second)
            =~= written_at(file, offset, first + second));
    }
}

/// Pieces, one after another.
pub open spec fn joined_pieces(pieces: Seq<Seq<u8>>) -> Seq<u8>
    decreases pieces.len(),
{
    if pieces.len() == 0 {
        Seq::empty()
    } else {
        joined_pieces(pieces.drop_last()) + pieces.last()
    }
}

/// An empty file after parts were written to it, each at the offset at which it starts, in the
/// order in which their indices are given.
pub open spec fn file_after_parts(plan: MultipartPlan, object: Seq<u8>, order: Seq<int>) -> Seq<u8>
    decreases order.len(),
{
    if order.len() == 0 {
        Seq::empty()
    } else {
        let part = plan.parts_spec()[order.last()];
        written_at(
            file_after_parts(plan, object, order.drop_last()),
            part.start as int,
            part_bytes(object, part),
        )
    }
}

/// The indices of an order in which parts come in.
spec fn are_part_indices(plan: MultipartPlan, order: Seq<int>) -> bool {
    forall|k: int| 0 <= k < order.len() ==> 0 <= #[trigger] order[k] < plan.part_count
}

/// Writing parts never makes the file longer than the object.
proof fn lemma_file_is_not_longer(plan: MultipartPlan, object: Seq<u8>, order: Seq<int>)
    requires
        plan.wf(),
        object.len() == plan.object_size,
        are_part_indices(plan, order),
    ensures
        file_after_parts(plan, object, order).len() <= object.len(),
    decreases order.len(),
{
    if order.len() > 0 {
        assert(order.last() == order[order.len() - 1]);
        lemma_part_shape(plan, order.last());
        lemma_file_is_not_longer(plan, object, order.drop_last());
    }
}

/// Once a part has been written, its bytes are those of the object, whatever is written later.
proof fn lemma_written_byte_stays(
    plan: MultipartPlan,
    object: Seq<u8>,
    order: Seq<int>,
    k: int,
    offset: int,
)
    requires
        plan.wf(),
        object.len() == plan.object_size,
        are_part_indices(plan, order),
        0 <= k < order.len(),
        plan.part_spec(order[k]).start <= offset < plan.part_spec(order[k]).end,
    ensures
        offset < file_after_parts(plan, object, order).len(),
        file_after_parts(plan, object, order)[offset] == object[offset],
    decreases order.len(),
{
    let before = order.drop_last();
    let last = order.last();
    assert(last == order[order.len() - 1]);
    lemma_part_shape(plan, order[k]);
    lemma_part_shape(plan, last);
    let part = plan.part_spec(last);
    if !(part.start <= offset < part.end) {
        assert(before[k] == order[k]);
        lemma_written_byte_stays(plan, object, before, k, offset);
    }
}

/// A download that writes each part at the offset at which it starts ends with the object in the
/// file, in whatever order the parts come in, and also if parts are written more than once.
pub proof fn lemma_parts_in_any_order_give_object(
    plan: MultipartPlan,
    object: Seq<u8>,
    order: Seq<int>,
)
    requires
        plan.wf(),
        object.len() == plan.object_size,
        forall|k: int| 0 <= k < order.len() ==> 0 <= #[trigger] order[k] < plan.part_count,
        forall|i: int| 0 <= i < plan.part_count ==> #[trigger] order.contains(i),
    ensures
        file_after_parts(plan, object, order) == object,
{
    let file = file_after_parts(plan, object, order);
    assert forall|offset: int| 0 <= offset < object.len() implies offset < file.len()
        && #[trigger] object[offset] == file[offset] by {
        let home = offset / (plan.part_size as int);
        lemma_each_byte_is_in_one_part(plan, offset);
        lemma_part_shape(plan, home);
        assert(order.contains(home));
        let k = choose|k: int| 0 <= k < order.len() && order[k] == home;
        lemma_written_byte_stays(plan, object, order, k, offset);
    }
    lemma_file_is_not_longer(plan, object, order);
    if object.len() > 0 {
        assert(object[object.len() - 1] == file[object.len() - 1]);
    }
    assert(file =~= object);
}

/// A download in parts gives back what was uploaded in parts, whatever the two part sizes are and
/// in whatever order the parts of the download come in.
pub proof fn lemma_download_gives_back_upload(
    upload: MultipartPlan,
    download: MultipartPlan,
    file: Seq<u8>,
    order: Seq<int>,
)
    requires
        upload.wf(),
        download.wf(),
        upload.object_size == file.len(),
        download.object_size == file.len(),
        forall|k: int| 0 <= k < order.len() ==> 0 <= #[trigger] order[k] < download.part_count,
        forall|i: int| 0 <= i < download.part_count ==> #[trigger] order.contains(i),
    ensures
        file_after_parts(
            download,
            joined_parts(upload, file, upload.part_count as int),
            order,
        ) == file,
{
    lemma_joined_parts_give_object(upload, file);
    lemma_parts_in_any_order_give_object(download, file, order);
}

/// `bytes=<first>-<last>`: how a request asks for the bytes `start..end`.
pub open spec fn range_text(start: int, end: int) -> Seq<char> {
    "bytes="@ + text::decimal(start as nat) + "-"@ + text::decimal((end - 1) as nat)
}

/// The range is `bytes=`, the offset of its first byte, `-` and the offset of its last byte.
pub open spec fn spans(range: Seq<char>, first: nat, last: nat) -> bool {
    range == seq!['b', 'y', 't', 'e', 's', '='] + text::decimal(first) + seq!['-'] + text::decimal(
        last,
    )
}

/// The bytes of an object that a range names: from the first to the last, both included.
pub open spec fn ranged_bytes(object: Seq<u8>, range: Seq<char>) -> Seq<u8> {
    let (first, last) = choose|first: nat, last: nat|
        first <= last && #[trigger] spans(range, first, last);
    object.subrange(first as int, last as int + 1)
}

/// A range names its first and last byte only.
proof fn lemma_range_is_unique(
    range: Seq<char>,
    first: nat,
    last: nat,
    other_first: nat,
    other_last: nat,
)
    requires
        spans(range, first, last),
        spans(range, other_first, other_last),
    ensures
        first == other_first,
        last == other_last,
{
    let a = text::decimal(first);
    let b = text::decimal(other_first);
    text::lemma_decimal_has_only_digits(first);
    text::lemma_decimal_has_only_digits(other_first);
    assert(range[6 + a.len() as int] == '-');
    assert(range[6 + b.len() as int] == '-');
    if a.len() < b.len() {
        assert(range[6 + a.len() as int] == b[a.len() as int]);
    }
    if b.len() < a.len() {
        assert(range[6 + b.len() as int] == a[b.len() as int]);
    }
    let cut = 6 + a.len() as int;
    assert(range.subrange(6, cut) =~= a);
    assert(range.subrange(6, cut) =~= b);
    assert(range.skip(cut + 1) =~= text::decimal(last));
    assert(range.skip(cut + 1) =~= text::decimal(other_last));
    text::lemma_decimal_is_unique(first, other_first);
    text::lemma_decimal_is_unique(last, other_last);
}

/// The range that a request asks for names the bytes that are wanted, from `start` up to but not
/// including `end`.
pub proof fn lemma_range_names_its_bytes(object: Seq<u8>, start: int, end: int)
    requires
        0 <= start < end,
    ensures
        spans(range_text(start, end), start as nat, (end - 1) as nat),
        ranged_bytes(object, range_text(start, end)) == object.subrange(start, end),
{
    let range = range_text(start, end);
    reveal_strlit("bytes=");
    reveal_strlit("-");
    assert("bytes="@ =~= seq!['b', 'y', 't', 'e', 's', '=']);
    assert("-"@ =~= seq!['-']);
    assert(spans(range, start as nat, (end - 1) as nat));
    let (first, last) = choose|first: nat, last: nat|
        first <= last && #[trigger] spans(range, first, last);
    assert(first <= last && spans(range, first, last));
    lemma_range_is_unique(range, start as nat, (end - 1) as nat, first, last);
}

/// How a request asks for the bytes `start..end`. The range names its last byte, while `end` is
/// the one after it.
pub fn byte_range(start: u64, end: u64) -> (range: String)
    requires
        start < end,
    ensures
        range@ == range_text(start as int, end as int),
{
    let mut range = "bytes=".to_owned();
    append_decimal(&mut range, start);
    range.append("-");
    append_decimal(&mut range, end - 1);
    range
}

/// The range that a request asks for, given the offsets of a slice, or why it cannot be.
pub open spec fn slice_range(start_end_offsets: Option<(usize, usize)>) -> Result<
    Option<Seq<char>>,
    S3ErrorView,
> {
    match start_end_offsets {
        None => Ok(None),
        Some((start, end)) => if end <= start {
            Err(
                S3ErrorView::ValidationError(
                    "Invalid start_end_offsets, non-positive slice: start "@ + text::decimal(
                        start as nat,
                    ) + " end "@ + text::decimal(end as nat) + "!"@,
                ),
            )
        } else {
            Ok(Some(range_text(start as int, end as int)))
        },
    }
}

/// The range that a request asks for, given the offsets of a slice. It is an error if the slice
/// holds no byte.
pub fn requested_range(start_end_offsets: Option<(usize, usize)>) -> (range: Result<
    Option<String>,
    S3Error,
>)
    ensures
        match range {
            Ok(range) => slice_range(start_end_offsets) == Ok::<Option<Seq<char>>, S3ErrorView>(
                range.deep_view(),
            ),
            Err(error) => slice_range(start_end_offsets) == Err::<Option<Seq<char>>, S3ErrorView>(
                error@,
            ),
        },
{
    match start_end_offsets {
        None => Ok(None),
        Some((start, end)) => {
            if end <= start {
                let mut message =
                    "Invalid start_end_offsets, non-positive slice: start ".to_owned();
                append_decimal(&mut message, start as u64);
                message.append(" end ");
                append_decimal(&mut message, end as u64);
                message.append("!");
                Err(S3Error::ValidationError(message))
            } else {
                Ok(Some(byte_range(start as u64, end as u64)))
            }
        },
    }
}

/// `bytes <first>-<last>/<size>`: how a response says that it holds a part of an object.
pub open spec fn content_range_text(part: MultipartPart, object_size: u64) -> Seq<char> {
    "bytes "@ + text::decimal(part.start as nat) + "-"@ + text::decimal((part.end - 1) as nat)
        + "/"@ + text::decimal(object_size as nat)
}

/// Whether a response holds the part that was asked for, by the range that it declares.
pub open spec fn checked_content_range(
    content_range: Option<Seq<char>>,
    part: MultipartPart,
    object_size: u64,
    context: Seq<char>,
) -> Result<(), S3ErrorView> {
    let received = match content_range {
        Some(range) => range,
        None => "<missing>"@,
    };
    if received == content_range_text(part, object_size) {
        Ok(())
    } else {
        Err(
            S3ErrorView::UnexpectedContentRange(
                context,
                content_range_text(part, object_size),
                received,
            ),
        )
    }
}

/// A response holds the part that was asked for exactly if it declares its range. One that
/// declares no range does not.
pub proof fn lemma_range_has_to_be_declared(
    content_range: Option<Seq<char>>,
    part: MultipartPart,
    object_size: u64,
    context: Seq<char>,
)
    ensures
        checked_content_range(content_range, part, object_size, context) is Ok <==> content_range
            == Some(content_range_text(part, object_size)),
{
    reveal_strlit("<missing>");
    reveal_strlit("bytes ");
    assert("<missing>"@[0] != content_range_text(part, object_size)[0]);
}

/// Checks that a response declares the range of the part that was asked for.
pub fn validate_content_range(
    content_range: Option<&str>,
    part: MultipartPart,
    object_size: u64,
    context: &str,
) -> (checked: Result<(), S3Error>)
    requires
        part.end > 0,
    ensures
        error::result_view(checked) == checked_content_range(
            match content_range {
                Some(range) => Some(range@),
                None => None,
            },
            part,
            object_size,
            context@,
        ),
{
    let mut expected = "bytes ".to_owned();
    append_decimal(&mut expected, part.start);
    expected.append("-");
    append_decimal(&mut expected, part.end - 1);
    expected.append("/");
    append_decimal(&mut expected, object_size);
    let received: &str = match content_range {
        Some(range) => range,
        None => "<missing>",
    };
    if !same_text(received, expected.as_str()) {
        return Err(
            S3Error::UnexpectedContentRange(context.to_owned(), expected, received.to_owned()),
        );
    }
    Ok(())
}

/// Adds the length of a piece of a part's body to what has come in before it. It is an error if
/// the sum cannot be counted.
pub fn count_received(
    received: u64,
    piece_length: usize,
    part: MultipartPart,
    context: &str,
) -> (sum: Result<u64, S3Error>)
    requires
        part.start <= part.end,
    ensures
        error::result_view(sum) == (if received + piece_length <= u64::MAX {
            Ok::<u64, S3ErrorView>((received + piece_length) as u64)
        } else {
            Err(
                S3ErrorView::UnexpectedContentLength(
                    context@,
                    (part.end - part.start) as u64,
                    u64::MAX,
                ),
            )
        }),
{
    match received.checked_add(piece_length as u64) {
        Some(sum) => Ok(sum),
        None => Err(
            S3Error::UnexpectedContentLength(context.to_owned(), part.length(), u64::MAX),
        ),
    }
}

/// Checks that a part's body came in with the length of the part.
pub fn validate_received(received: u64, part: MultipartPart, context: &str) -> (checked: Result<
    (),
    S3Error,
>)
    requires
        part.start <= part.end,
    ensures
        error::result_view(checked) == (if received == part.end - part.start {
            Ok::<(), S3ErrorView>(())
        } else {
            Err(
                S3ErrorView::UnexpectedContentLength(
                    context@,
                    (part.end - part.start) as u64,
                    received,
                ),
            )
        }),
{
    if received != part.length() {
        return Err(S3Error::UnexpectedContentLength(context.to_owned(), part.length(), received));
    }
    Ok(())
}

/// Dividing and rounding up gives the least number of parts of a size that hold an object.
proof fn lemma_ceil_div_is_least(a: int, b: int)
    requires
        a > 0,
        b > 0,
    ensures
        (ceil_div(a, b) - 1) * b < a <= ceil_div(a, b) * b,
        ceil_div(a, b) > 0,
{
    let q = a / b;
    let r = a % b;
    vstd::arithmetic::div_mod::lemma_fundamental_div_mod(a, b);
    vstd::arithmetic::div_mod::lemma_mod_bound(a, b);
    assert(r == 0 ==> (q - 1) * b < a <= q * b && q > 0) by (nonlinear_arith)
        requires
            a == b * q + r,
            a > 0,
            b > 0,
    ;
    assert(r > 0 ==> q * b < a <= (q + 1) * b && q >= 0) by (nonlinear_arith)
        requires
            a == b * q + r,
            0 <= r < b,
            a > 0,
    ;
}

/// The parts of a plan are as large as was asked for. Only a limit on their number makes them
/// larger, and then not larger than it takes to keep it. Without a limit, a plan is refused exactly
/// if part numbers cannot count its parts; with one that they can count up to, it never is.
pub proof fn lemma_parts_are_as_large_as_asked_for(
    object_size: u64,
    requested_part_size: u64,
    max_parts: Option<u64>,
)
    requires
        requested_part_size > 0,
        max_parts != Some(0u64),
        object_size > 0,
    ensures
        match (MultipartPlan::planned(object_size, requested_part_size, max_parts), max_parts) {
            (Ok(plan), None) => plan.part_size == requested_part_size && object_size
                <= requested_part_size * i32::MAX,
            (Ok(plan), Some(max_parts)) => {
                &&& plan.part_size >= requested_part_size
                &&& object_size <= plan.part_size * max_parts
                &&& plan.part_size > requested_part_size ==> (plan.part_size - 1) * max_parts
                    < object_size
            },
            (Err(error), None) => error is ValidationError && object_size > requested_part_size
                * i32::MAX,
            (Err(error), Some(max_parts)) => error is ValidationError && max_parts > i32::MAX,
        },
{
    let size = object_size as int;
    let least = match max_parts {
        Some(max_parts) => ceil_div(size, max_parts as int),
        None => 0,
    };
    if let Some(max_parts) = max_parts {
        lemma_ceil_div_is_least(size, max_parts as int);
        lemma_ceil_div_at_most(size, max_parts as int);
    }
    let part_size = if requested_part_size < least {
        least
    } else {
        requested_part_size as int
    };
    lemma_ceil_div_is_least(size, part_size);
    lemma_ceil_div_at_most(size, part_size);
    let count = ceil_div(size, part_size);
    if let Some(max_parts) = max_parts {
        lemma_ceil_div_limits(size, max_parts as int, part_size);
        assert(size <= part_size * max_parts) by (nonlinear_arith)
            requires
                size <= count * part_size,
                count <= max_parts,
                part_size > 0,
        ;
    } else {
        assert(count <= i32::MAX ==> size <= part_size * i32::MAX) by (nonlinear_arith)
            requires
                size <= count * part_size,
                part_size > 0,
        ;
        assert(count > i32::MAX ==> size > part_size * i32::MAX) by (nonlinear_arith)
            requires
                (count - 1) * part_size < size,
                part_size > 0,
        ;
    }
}

/// A plan without a part size, or without any part allowed, is refused.
pub proof fn lemma_plans_without_parts_are_refused(
    object_size: u64,
    requested_part_size: u64,
    max_parts: Option<u64>,
)
    requires
        requested_part_size == 0 || max_parts == Some(0u64),
    ensures
        MultipartPlan::planned(object_size, requested_part_size, max_parts) matches Err(error)
            && error is ValidationError,
{
}

/// The parts of an upload have the size that was asked for, wherever S3 accepts it: from 5 MiB to
/// 5 GiB, and large enough for 10,000 parts to hold the object. A smaller or larger size is brought
/// to the nearest of these limits.
pub proof fn lemma_upload_keeps_an_accepted_part_size(object_size: u64, requested_part_size: u64)
    requires
        0 < object_size <= MULTIPART_MAX_OBJECT_SIZE,
    ensures
        ({
            let plan = MultipartPlan::planned_upload(object_size, requested_part_size)->Ok_0;
            let smallest = 5 * 1024 * 1024;
            let largest = 5 * 1024 * 1024 * 1024;
            &&& MultipartPlan::planned_upload(object_size, requested_part_size) is Ok
            &&& plan.object_size == object_size
            &&& smallest <= requested_part_size <= largest && object_size <= requested_part_size
                * 10_000 ==> plan.part_size == requested_part_size
            &&& requested_part_size < smallest && object_size <= smallest * 10_000
                ==> plan.part_size == smallest
            &&& requested_part_size > largest ==> plan.part_size == largest
            &&& requested_part_size <= largest && object_size > requested_part_size * 10_000
                && object_size > smallest * 10_000 ==> (plan.part_size - 1) * 10_000 < object_size
                <= plan.part_size * 10_000
        }),
{
    let asked: u64 = if requested_part_size < MULTIPART_MIN_PART_SIZE {
        MULTIPART_MIN_PART_SIZE
    } else if requested_part_size > MULTIPART_MAX_PART_SIZE {
        MULTIPART_MAX_PART_SIZE
    } else {
        requested_part_size
    };
    lemma_upload_plan_is_within_limits(object_size, requested_part_size);
    lemma_plan_is_for_the_object(object_size, asked, Some(MULTIPART_MAX_PARTS));
    lemma_parts_are_as_large_as_asked_for(object_size, asked, Some(MULTIPART_MAX_PARTS));
}

/// An object larger than 10,000 parts of 5 GiB cannot be uploaded.
pub proof fn lemma_too_large_uploads_are_refused(object_size: u64, requested_part_size: u64)
    requires
        object_size > 10_000 * (5 * 1024 * 1024 * 1024),
    ensures
        MultipartPlan::planned_upload(object_size, requested_part_size) matches Err(error)
            && error is ValidationError,
{
}

/// The range of a slice names the bytes of the slice. A slice without bytes is refused, and without
/// offsets there is no range.
pub proof fn lemma_slice_range_names_the_slice(
    start_end_offsets: Option<(usize, usize)>,
    object: Seq<u8>,
)
    ensures
        match (slice_range(start_end_offsets), start_end_offsets) {
            (Ok(None), None) => true,
            (Ok(Some(range)), Some((start, end))) => start < end && ranged_bytes(object, range)
                == object.subrange(start as int, end as int),
            (Err(S3ErrorView::ValidationError(message)), Some((start, end))) => end <= start && (
            "start "@ + text::decimal(start as nat) + " end "@ + text::decimal(end as nat)
                + "!"@).is_suffix_of(message),
            _ => false,
        },
{
    if let Some((start, end)) = start_end_offsets {
        if start < end {
            lemma_range_names_its_bytes(object, start as int, end as int);
        } else {
            reveal_strlit("Invalid start_end_offsets, non-positive slice: start ");
            reveal_strlit("start ");
            let lead = "Invalid start_end_offsets, non-positive slice: start "@;
            let front = lead.take(lead.len() - 6);
            assert(lead =~= front + "start "@);
            let a = text::decimal(start as nat);
            let b = text::decimal(end as nat);
            let message = lead + a + " end "@ + b + "!"@;
            let tail = "start "@ + a + " end "@ + b + "!"@;
            assert(message =~= front + tail);
            assert(message.subrange(message.len() - tail.len(), message.len() as int) =~= tail);
        }
    }
}

/// The range that a response has to declare for a part names the first and the last byte of the
/// part, and the size of the whole object.
pub proof fn lemma_declared_range_is_that_of_the_part(
    content_range: Option<Seq<char>>,
    part: MultipartPart,
    object_size: u64,
    context: Seq<char>,
    first: nat,
    last: nat,
    size: nat,
)
    requires
        part.wf(),
        content_range == Some(
            "bytes "@ + text::decimal(first) + "-"@ + text::decimal(last) + "/"@ + text::decimal(
                size,
            ),
        ),
    ensures
        checked_content_range(content_range, part, object_size, context) is Ok <==> (first
            == part.start && last + 1 == part.end && size == object_size),
        checked_content_range(content_range, part, object_size, context) matches Err(error) ==> (
        error matches S3ErrorView::UnexpectedContentRange(said, _, received) && said == context
            && Some(received) == content_range),
{
    reveal_strlit("bytes ");
    reveal_strlit("-");
    reveal_strlit("/");
    let declared = content_range.unwrap();
    let wanted = content_range_text(part, object_size);
    if declared == wanted {
        let a = text::decimal(first);
        let b = text::decimal(part.start as nat);
        let c = text::decimal(last);
        let d = text::decimal((part.end - 1) as nat);
        text::lemma_decimal_has_only_digits(first);
        text::lemma_decimal_has_only_digits(part.start as nat);
        text::lemma_decimal_has_only_digits(last);
        text::lemma_decimal_has_only_digits((part.end - 1) as nat);
        assert(declared[6 + a.len() as int] == '-');
        assert(wanted[6 + b.len() as int] == '-');
        if a.len() < b.len() {
            assert(wanted[6 + a.len() as int] == b[a.len() as int]);
        }
        if b.len() < a.len() {
            assert(declared[6 + b.len() as int] == a[b.len() as int]);
        }
        let cut = 7 + a.len() as int;
        assert(declared.subrange(6, cut - 1) =~= a);
        assert(wanted.subrange(6, cut - 1) =~= b);
        assert(declared[cut + c.len()] == '/');
        assert(wanted[cut + d.len()] == '/');
        if c.len() < d.len() {
            assert(wanted[cut + c.len()] == d[c.len() as int]);
        }
        if d.len() < c.len() {
            assert(declared[cut + d.len()] == c[d.len() as int]);
        }
        assert(declared.subrange(cut, cut + c.len()) =~= c);
        assert(wanted.subrange(cut, cut + c.len()) =~= d);
        assert(declared.skip(cut + c.len() + 1) =~= text::decimal(size));
        assert(wanted.skip(cut + c.len() + 1) =~= text::decimal(object_size as nat));
        text::lemma_decimal_is_unique(first, part.start as nat);
        text::lemma_decimal_is_unique(last, (part.end - 1) as nat);
        text::lemma_decimal_is_unique(size, object_size as nat);
    }
}

} // verus!
