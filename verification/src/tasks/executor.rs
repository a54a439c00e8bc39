//! Runs a task and reports its outcome.

use vstd::prelude::*;

use crate::tasks::result::{completed_status, TaskResult, TaskResultView};
use crate::tasks::task::{Task, TaskType, TaskView};

verus! {

/// The exact sum of a sequence of numbers.
pub open spec fn sum_of(s: Seq<i32>) -> int
    decreases s.len(),
{
    if s.len() == 0 {
        0
    } else {
        sum_of(s.drop_last()) + s.last()
    }
}

/// Whether `v` can be held in an `i32`.
pub open spec fn fits_i32(v: int) -> bool {
    i32::MIN <= v <= i32::MAX
}

/// The status reported when a sum does not fit in an `i32`.
pub open spec fn overflow_status() -> Seq<char> {
    seq!['i', 'n', 't', 'e', 'g', 'e', 'r', ' ', 'o', 'v', 'e', 'r', 'f', 'l', 'o', 'w']
}

/// The outcome of executing a task.
pub open spec fn spec_execute(t: TaskView) -> TaskResultView {
    match t.task_type {
        TaskType::Sum => if fits_i32(sum_of(t.numbers)) {
            TaskResultView {
                task_id: t.task_id,
                result: sum_of(t.numbers) as i32,
                status: completed_status(),
            }
        } else {
            TaskResultView { task_id: t.task_id, result: 0, status: overflow_status() }
        },
    }
}

/// The sum counts every number once: the empty sum is 0, a single number
/// sums to itself, and the sum of two runs joined is the sum of their
/// sums.
pub proof fn law_sum_is_additive(a: Seq<i32>, b: Seq<i32>, x: i32)
    ensures
        sum_of(Seq::<i32>::empty()) == 0,
        sum_of(seq![x]) == x,
        sum_of(a + b) == sum_of(a) + sum_of(b),
    decreases b.len(),
{
    assert(seq![x].drop_last() =~= Seq::<i32>::empty());
    assert(sum_of(seq![x].drop_last()) == 0);
    assert(seq![x].last() == x);
    if b.len() == 0 {
        assert(a + b =~= a);
    } else {
        law_sum_is_additive(a, b.drop_last(), x);
        assert((a + b).drop_last() =~= a + b.drop_last());
    }
}

/// Executing a `Sum` task reports the sum of all its numbers when the sum
/// fits in an `i32`; one more number adds exactly that number to the
/// result, so no number is skipped.
pub proof fn law_execute_sums_every_number(t: TaskView, x: i32)
    ensures
        spec_execute(t).task_id == t.task_id,
        fits_i32(sum_of(t.numbers)) ==> spec_execute(t).result == sum_of(t.numbers)
            && spec_execute(t).status == completed_status(),
        !fits_i32(sum_of(t.numbers)) ==> spec_execute(t).result == 0 && spec_execute(t).status
            == overflow_status(),
        ({
            let u = TaskView { numbers: t.numbers.push(x), ..t };
            fits_i32(sum_of(t.numbers)) && fits_i32(sum_of(u.numbers)) ==> spec_execute(u).result
                == spec_execute(t).result + x
        }),
{
    let u = TaskView { numbers: t.numbers.push(x), ..t };
    assert(u.numbers.drop_last() =~= t.numbers);
}

proof fn lemma_sum_bounded(s: Seq<i32>)
    ensures
        -(s.len() * 0x8000_0000) <= sum_of(s) <= s.len() * 0x8000_0000,
    decreases s.len(),
{
    if s.len() > 0 {
        lemma_sum_bounded(s.drop_last());
    }
}

/// Execute `task` and report the outcome for its `task_id`.
///
/// A `Sum` task yields the sum of its numbers with status `"completed"`
/// (0 for no numbers); when the sum does not fit in an `i32` the result
/// is 0 with status `"integer overflow"`.
pub fn execute_task(task: Task) -> (r: TaskResult)
    ensures
        r@ == spec_execute(task@),
        r.task_id@ == task.task_id@,
        fits_i32(sum_of(task.numbers@)) ==> r.result == sum_of(task.numbers@) && r.status@
            == completed_status(),
        !fits_i32(sum_of(task.numbers@)) ==> r.result == 0 && r.status@ == overflow_status(),
{
    match task.task_type {
        TaskType::Sum => {
            let n = task.numbers.len();
            let mut acc: i128 = 0;
            let mut i: usize = 0;
            while i < n
                invariant
                    n == task.numbers@.len(),
                    i <= n,
                    acc == sum_of(task.numbers@.take(i as int)),
                decreases n - i,
            {
                proof {
                    lemma_sum_bounded(task.numbers@.take(i as int));
                    assert(task.numbers@.take(i as int + 1).drop_last() =~= task.numbers@.take(
                        i as int,
                    ));
                    assert(i * 0x8000_0000 <= 0x1_0000_0000_0000_0000 * 0x8000_0000) by (nonlinear_arith)
                        requires i <= 0xffff_ffff_ffff_ffff;
                }
                acc = acc + task.numbers[i] as i128;
                i = i + 1;
            }
            proof {
                assert(task.numbers@.take(n as int) =~= task.numbers@);
            }
            if acc < i32::MIN as i128 || acc > i32::MAX as i128 {
                let status = crate::text::owned("integer overflow");
                proof {
                    reveal_strlit("integer overflow");
                    assert("integer overflow"@ =~= overflow_status());
                }
                TaskResult { task_id: task.task_id, result: 0, status }
            } else {
                let status = crate::text::owned("completed");
                proof {
                    reveal_strlit("completed");
                    assert("completed"@ =~= completed_status());
                }
                TaskResult { task_id: task.task_id, result: acc as i32, status }
            }
        },
    }
}

} // verus!
