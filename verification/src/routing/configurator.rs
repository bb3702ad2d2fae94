use crate::amqp::exchange::{Exchange, ExchangeView};
use crate::amqp::queue::{Bind, BindView, Queue, QueueView};
use crate::routing::operator::{
    AmqpOperator, Attempt, BindArgs, BindArgsView, OperatorResult, Step,
};
use vstd::prelude::*;

verus! {

/// What declaring a topology gives: nothing, or the first complaint met.
pub type ConfiguratorResult = Result<(), &'static str>;

/// What each of `bindings` denotes, in the same order.
pub open spec fn bind_views(bindings: Seq<Bind>) -> Seq<BindView> {
    Seq::new(bindings.len(), |i: int| bindings[i]@)
}

/// The arguments of the bind call that `binding` asks for.
pub open spec fn bind_args_of(binding: BindView) -> BindArgsView {
    BindArgsView {
        routing_key: binding.routing_key,
        no_wait: binding.no_wait,
        arguments: binding.arguments,
    }
}

/// The calls that bind `queue` as `bindings` ask: the queue is declared, then
/// for each binding in turn its exchange is declared and the queue bound to it.
pub open spec fn queue_plan(queue: QueueView, bindings: Seq<BindView>) -> Seq<Step> {
    Seq::new(
        1 + 2 * bindings.len(),
        |i: int|
            if i == 0 {
                Step::DeclareQueue { queue }
            } else if i % 2 == 1 {
                Step::DeclareExchange { exchange: bindings[(i - 1) / 2].exchange }
            } else {
                Step::BindQueue {
                    queue,
                    exchange: bindings[(i - 2) / 2].exchange,
                    args: bind_args_of(bindings[(i - 2) / 2]),
                }
            },
    )
}

/// The calls that bind `exchange` as `bindings` ask: the exchange is declared,
/// then for each binding in turn its exchange is declared and `exchange` bound
/// to it.
pub open spec fn exchange_plan(exchange: ExchangeView, bindings: Seq<BindView>) -> Seq<Step> {
    Seq::new(
        1 + 2 * bindings.len(),
        |i: int|
            if i == 0 {
                Step::DeclareExchange { exchange }
            } else if i % 2 == 1 {
                Step::DeclareExchange { exchange: bindings[(i - 1) / 2].exchange }
            } else {
                Step::BindExchange {
                    source: exchange,
                    destination: bindings[(i - 2) / 2].exchange,
                    args: bind_args_of(bindings[(i - 2) / 2]),
                }
            },
    )
}

/// `after` continues `before` by a run of `plan` that stopped at the first
/// failure and gave `result`: the earlier history is untouched; the calls of
/// `plan` were made in order, from the first one on; every call but the last
/// one made succeeded; the last one gave `result`; and after a success nothing
/// of `plan` was left out.
pub open spec fn fail_fast(
    before: Seq<Attempt>,
    after: Seq<Attempt>,
    plan: Seq<Step>,
    result: ConfiguratorResult,
) -> bool {
    let made = after.len() - before.len();
    &&& 1 <= made <= plan.len()
    &&& after.subrange(0, before.len() as int) == before
    &&& forall|i: int| 0 <= i < made ==> (#[trigger] after[before.len() + i]).step == plan[i]
    &&& forall|i: int| 0 <= i < made - 1 ==> (#[trigger] after[before.len() + i]).outcome is Ok
    &&& after[after.len() - 1].outcome == result
    &&& result is Ok ==> made == plan.len()
}

/// `after` continues `before` by the first `done` calls of `plan`, each of
/// which succeeded.
spec fn advanced(before: Seq<Attempt>, after: Seq<Attempt>, plan: Seq<Step>, done: int) -> bool {
    &&& 0 <= done <= plan.len()
    &&& after.len() == before.len() + done
    &&& after.subrange(0, before.len() as int) == before
    &&& forall|i: int|
        0 <= i < done ==> (#[trigger] after[before.len() + i]).step == plan[i] && after[before.len()
            + i].outcome is Ok
}

/// Drives a desired binding graph onto one operator, which it holds for its
/// lifetime.
pub struct AmqpConfigurator<T> where T: AmqpOperator {
    operator: T,
}

impl<T> AmqpConfigurator<T> where T: AmqpOperator {
    /// The operator that the calls are made on.
    pub closed spec fn operator(self) -> T {
        self.operator
    }

    /// The calls made on the operator so far, oldest first, each with what
    /// the operator answered.
    pub open spec fn history(self) -> Seq<Attempt> {
        self.operator().calls()
    }

    /// A configurator that works on `operator`.
    pub fn new(operator: T) -> (c: Self)
        ensures
            c.operator() == operator,
            c.history() == operator.calls(),
    {
        Self { operator }
    }

    /// Has the operator bind `queue` to the exchange of `binding`, under the
    /// routing key, wait flag and arguments of `binding`.
    fn bind_queue_to(&mut self, queue: &Queue, binding: Bind) -> (r: OperatorResult)
        ensures
            final(self).history() == old(self).history().push(
                Attempt {
                    step: Step::BindQueue {
                        queue: queue@,
                        exchange: binding.exchange@,
                        args: bind_args_of(binding@),
                    },
                    outcome: r,
                },
            ),
    {
        self.operator.bind_queue(
            queue,
            &binding.exchange,
            BindArgs {
                routing_key: binding.routing_key,
                no_wait: binding.no_wait,
                arguments: binding.arguments,
            },
        )
    }

    /// Has the operator bind `source` to the exchange of `binding`, under the
    /// routing key, wait flag and arguments of `binding`.
    fn bind_exchange_to(&mut self, source: &Exchange, binding: Bind) -> (r: OperatorResult)
        ensures
            final(self).history() == old(self).history().push(
                Attempt {
                    step: Step::BindExchange {
                        source: source@,
                        destination: binding.exchange@,
                        args: bind_args_of(binding@),
                    },
                    outcome: r,
                },
            ),
    {
        self.operator.bind_exchange(
            source,
            &binding.exchange,
            BindArgs {
                routing_key: binding.routing_key,
                no_wait: binding.no_wait,
                arguments: binding.arguments,
            },
        )
    }

    /// Declares `queue`, then for each of `bindings`, in the order given,
    /// declares its exchange and binds the queue to it. The first failure is
    /// returned as it came and ends the run; what was done before it stays.
    pub fn bind_queue(&mut self, queue: Queue, bindings: Vec<Bind>) -> (r: ConfiguratorResult)
        ensures
            fail_fast(
                old(self).history(),
                final(self).history(),
                queue_plan(queue@, bind_views(bindings@)),
                r,
            ),
    {
        let ghost before = self.history();
        let ghost plan = queue_plan(queue@, bind_views(bindings@));
        proof {
            lemma_advanced_none(before, plan);
            assert(plan[0] == Step::DeclareQueue { queue: queue@ });
        }
        let queue_declared = self.operator.declare_queue(&queue);
        if let Err(e) = queue_declared {
            proof {
                lemma_advanced_ends(before, before, plan, 0, queue_declared);
            }
            return Err(e);
        }
        proof {
            lemma_advanced_next(before, before, plan, 0, queue_declared);
        }
        for binding in it: bindings
            invariant
                it.seq() == bindings@,
                before == old(self).history(),
                plan == queue_plan(queue@, bind_views(bindings@)),
                advanced(before, self.history(), plan, 1 + 2 * it.index()),
        {
            let ghost mid = self.history();
            let ghost at: int = 1 + 2 * it.index();
            assert(binding == bindings@[it.index()]);
            assert(plan[at] == Step::DeclareExchange { exchange: binding.exchange@ });
            assert(plan[at + 1] == Step::BindQueue {
                queue: queue@,
                exchange: binding.exchange@,
                args: bind_args_of(binding@),
            });
            let exchange_declared = self.operator.declare_exchange(&binding.exchange);
            if let Err(e) = exchange_declared {
                proof {
                    lemma_advanced_ends(before, mid, plan, at, exchange_declared);
                }
                return Err(e);
            }
            proof {
                lemma_advanced_next(before, mid, plan, at, exchange_declared);
            }
            let ghost mid = self.history();
            let queue_bound = self.bind_queue_to(&queue, binding);
            if let Err(e) = queue_bound {
                proof {
                    lemma_advanced_ends(before, mid, plan, at + 1, queue_bound);
                }
                return Err(e);
            }
            proof {
                lemma_advanced_next(before, mid, plan, at + 1, queue_bound);
            }
        }
        proof {
            lemma_advanced_whole(before, self.history(), plan);
        }
        Ok(())
    }

    /// Declares `exchange`, then for each of `bindings`, in the order given,
    /// declares its exchange and binds `exchange` to it. The first failure is
    /// returned as it came and ends the run; what was done before it stays.
    pub fn bind_exchange(&mut self, exchange: Exchange, bindings: Vec<Bind>) -> (r:
        ConfiguratorResult)
        ensures
            fail_fast(
                old(self).history(),
                final(self).history(),
                exchange_plan(exchange@, bind_views(bindings@)),
                r,
            ),
    {
        let ghost before = self.history();
        let ghost plan = exchange_plan(exchange@, bind_views(bindings@));
        proof {
            lemma_advanced_none(before, plan);
            assert(plan[0] == Step::DeclareExchange { exchange: exchange@ });
        }
        let source_declared = self.operator.declare_exchange(&exchange);
        if let Err(e) = source_declared {
            proof {
                lemma_advanced_ends(before, before, plan, 0, source_declared);
            }
            return Err(e);
        }
        proof {
            lemma_advanced_next(before, before, plan, 0, source_declared);
        }
        for binding in it: bindings
            invariant
                it.seq() == bindings@,
                before == old(self).history(),
                plan == exchange_plan(exchange@, bind_views(bindings@)),
                advanced(before, self.history(), plan, 1 + 2 * it.index()),
        {
            let ghost mid = self.history();
            let ghost at: int = 1 + 2 * it.index();
            assert(binding == bindings@[it.index()]);
            assert(plan[at] == Step::DeclareExchange { exchange: binding.exchange@ });
            assert(plan[at + 1] == Step::BindExchange {
                source: exchange@,
                destination: binding.exchange@,
                args: bind_args_of(binding@),
            });
            let exchange_declared = self.operator.declare_exchange(&binding.exchange);
            if let Err(e) = exchange_declared {
                proof {
                    lemma_advanced_ends(before, mid, plan, at, exchange_declared);
                }
                return Err(e);
            }
            proof {
                lemma_advanced_next(before, mid, plan, at, exchange_declared);
            }
            let ghost mid = self.history();
            let exchange_bound = self.bind_exchange_to(&exchange, binding);
            if let Err(e) = exchange_bound {
                proof {
                    lemma_advanced_ends(before, mid, plan, at + 1, exchange_bound);
                }
                return Err(e);
            }
            proof {
                lemma_advanced_next(before, mid, plan, at + 1, exchange_bound);
            }
        }
        proof {
            lemma_advanced_whole(before, self.history(), plan);
        }
        Ok(())
    }
}

/// A run that has made no call yet.
proof fn lemma_advanced_none(before: Seq<Attempt>, plan: Seq<Step>)
    ensures
        advanced(before, before, plan, 0),
{
    assert(before.subrange(0, before.len() as int) =~= before);
}

/// One more call of the plan that succeeded advances the run by one.
proof fn lemma_advanced_next(
    before: Seq<Attempt>,
    mid: Seq<Attempt>,
    plan: Seq<Step>,
    done: int,
    outcome: ConfiguratorResult,
)
    requires
        advanced(before, mid, plan, done),
        done < plan.len(),
        outcome is Ok,
    ensures
        advanced(before, mid.push(Attempt { step: plan[done], outcome }), plan, done + 1),
{
    let after = mid.push(Attempt { step: plan[done], outcome });
    assert(after.subrange(0, before.len() as int) =~= mid.subrange(0, before.len() as int));
    assert forall|i: int| 0 <= i < done + 1 implies (#[trigger] after[before.len() + i]).step
        == plan[i] && after[before.len() + i].outcome is Ok by {
        if i < done {
            assert(after[before.len() + i] == mid[before.len() + i]);
        }
    }
}

/// A run ends with the call that failed, or with the last call of the plan.
proof fn lemma_advanced_ends(
    before: Seq<Attempt>,
    mid: Seq<Attempt>,
    plan: Seq<Step>,
    done: int,
    result: ConfiguratorResult,
)
    requires
        advanced(before, mid, plan, done),
        done < plan.len(),
        result is Ok ==> done + 1 == plan.len(),
    ensures
        fail_fast(before, mid.push(Attempt { step: plan[done], outcome: result }), plan, result),
{
    let after = mid.push(Attempt { step: plan[done], outcome: result });
    assert(after.subrange(0, before.len() as int) =~= mid.subrange(0, before.len() as int));
    assert forall|i: int| 0 <= i < done + 1 implies (#[trigger] after[before.len() + i]).step
        == plan[i] by {
        if i < done {
            assert(after[before.len() + i] == mid[before.len() + i]);
        }
    }
    assert forall|i: int| 0 <= i < done implies (#[trigger] after[before.len()
        + i]).outcome is Ok by {
        assert(after[before.len() + i] == mid[before.len() + i]);
    }
}

/// A run that made every call of the plan, each with success, gave success.
proof fn lemma_advanced_whole(before: Seq<Attempt>, after: Seq<Attempt>, plan: Seq<Step>)
    requires
        advanced(before, after, plan, plan.len() as int),
        plan.len() >= 1,
    ensures
        fail_fast(before, after, plan, Ok(())),
{
    let last: int = plan.len() - 1;
    assert(after[before.len() + last].outcome is Ok);
    assert(after[before.len() + last].outcome->Ok_0 == ());
}

/// Binding a queue with no bindings makes one call, the declaration of the
/// queue, and gives what that call gave.
pub proof fn law_queue_alone(
    before: Seq<Attempt>,
    after: Seq<Attempt>,
    queue: QueueView,
    result: ConfiguratorResult,
)
    requires
        fail_fast(before, after, queue_plan(queue, Seq::empty()), result),
    ensures
        after == before.push(Attempt { step: Step::DeclareQueue { queue }, outcome: result }),
{
    let plan = queue_plan(queue, Seq::empty());
    let first: int = 0;
    assert(plan[first] == Step::DeclareQueue { queue });
    assert(after[before.len() + first].step == plan[first]);
    assert(after.subrange(0, before.len() as int) =~= after.drop_last());
    assert(after =~= before.push(Attempt { step: Step::DeclareQueue { queue }, outcome: result }));
}

/// Binding an exchange with no bindings makes one call, the declaration of
/// the exchange, and gives what that call gave.
pub proof fn law_exchange_alone(
    before: Seq<Attempt>,
    after: Seq<Attempt>,
    exchange: ExchangeView,
    result: ConfiguratorResult,
)
    requires
        fail_fast(before, after, exchange_plan(exchange, Seq::empty()), result),
    ensures
        after == before.push(Attempt { step: Step::DeclareExchange { exchange }, outcome: result }),
{
    let plan = exchange_plan(exchange, Seq::empty());
    let first: int = 0;
    assert(plan[first] == Step::DeclareExchange { exchange });
    assert(after[before.len() + first].step == plan[first]);
    assert(after.subrange(0, before.len() as int) =~= after.drop_last());
    assert(after =~= before.push(Attempt { step: Step::DeclareExchange { exchange }, outcome: result }));
}

/// A call that fails is the last call of its run, and its error is what the
/// run gives: the calls of the plan before it were made and succeeded, and
/// nothing of the plan behind it is attempted.
pub proof fn law_failure_ends_run(
    before: Seq<Attempt>,
    after: Seq<Attempt>,
    plan: Seq<Step>,
    result: ConfiguratorResult,
    at: int,
)
    requires
        fail_fast(before, after, plan, result),
        0 <= at < after.len() - before.len(),
        after[before.len() + at].outcome is Err,
    ensures
        after.len() == before.len() + at + 1,
        result == after[before.len() + at].outcome,
        after[before.len() + at].step == plan[at],
        forall|i: int|
            0 <= i < at ==> (#[trigger] after[before.len() + i]) == (Attempt {
                step: plan[i],
                outcome: Ok(()),
            }),
{
    assert forall|i: int| 0 <= i < at implies (#[trigger] after[before.len() + i]) == (Attempt {
        step: plan[i],
        outcome: Ok(()),
    }) by {
        assert(after[before.len() + i].outcome is Ok);
        assert(after[before.len() + i].outcome->Ok_0 == ());
    }
}

/// Where binding `k` of a queue fails, at the declaration of its exchange or
/// at the bind, the run gives that error; the bindings before `k` were made in
/// full, and no call was made for a binding behind `k`.
pub proof fn law_failed_binding_ends_run(
    before: Seq<Attempt>,
    after: Seq<Attempt>,
    queue: QueueView,
    bindings: Seq<BindView>,
    result: ConfiguratorResult,
    k: int,
    at: int,
)
    requires
        fail_fast(before, after, queue_plan(queue, bindings), result),
        0 <= k < bindings.len(),
        at == 1 + 2 * k || at == 2 + 2 * k,
        at < after.len() - before.len(),
        after[before.len() + at].outcome is Err,
    ensures
        result == after[before.len() + at].outcome,
        after.len() == before.len() + at + 1,
        after[before.len() as int] == (Attempt {
            step: Step::DeclareQueue { queue },
            outcome: Ok(()),
        }),
        forall|j: int|
            #![trigger bindings[j]]
            0 <= j < k ==> after[before.len() + 1 + 2 * j] == (Attempt {
                step: Step::DeclareExchange { exchange: bindings[j].exchange },
                outcome: Ok(()),
            }) && after[before.len() + 2 + 2 * j] == (Attempt {
                step: Step::BindQueue {
                    queue,
                    exchange: bindings[j].exchange,
                    args: bind_args_of(bindings[j]),
                },
                outcome: Ok(()),
            }),
        after[before.len() + 1 + 2 * k].step == (Step::DeclareExchange {
            exchange: bindings[k].exchange,
        }),
{
    let plan = queue_plan(queue, bindings);
    law_failure_ends_run(before, after, plan, result, at);
    let first: int = 0;
    assert(after[before.len() + first].step == plan[first]);
    assert forall|j: int| #![trigger bindings[j]] 0 <= j < k implies after[before.len() + 1 + 2
        * j] == (Attempt {
        step: Step::DeclareExchange { exchange: bindings[j].exchange },
        outcome: Ok(()),
    }) && after[before.len() + 2 + 2 * j] == (Attempt {
        step: Step::BindQueue {
            queue,
            exchange: bindings[j].exchange,
            args: bind_args_of(bindings[j]),
        },
        outcome: Ok(()),
    }) by {
        assert(after[before.len() + (1 + 2 * j)].step == plan[1 + 2 * j]);
        assert(after[before.len() + (2 + 2 * j)].step == plan[2 + 2 * j]);
    }
    assert(after[before.len() + (1 + 2 * k)].step == plan[1 + 2 * k]);
}

/// Where binding `k` of an exchange fails, at the declaration of its exchange or
/// at the bind, the run gives that error; the bindings before `k` were made in
/// full, and no call was made for a binding behind `k`.
pub proof fn law_failed_exchange_binding_ends_run(
    before: Seq<Attempt>,
    after: Seq<Attempt>,
    exchange: ExchangeView,
    bindings: Seq<BindView>,
    result: ConfiguratorResult,
    k: int,
    at: int,
)
    requires
        fail_fast(before, after, exchange_plan(exchange, bindings), result),
        0 <= k < bindings.len(),
        at == 1 + 2 * k || at == 2 + 2 * k,
        at < after.len() - before.len(),
        after[before.len() + at].outcome is Err,
    ensures
        result == after[before.len() + at].outcome,
        after.len() == before.len() + at + 1,
        after[before.len() as int] == (Attempt {
            step: Step::DeclareExchange { exchange },
            outcome: Ok(()),
        }),
        forall|j: int|
            #![trigger bindings[j]]
            0 <= j < k ==> after[before.len() + 1 + 2 * j] == (Attempt {
                step: Step::DeclareExchange { exchange: bindings[j].exchange },
                outcome: Ok(()),
            }) && after[before.len() + 2 + 2 * j] == (Attempt {
                step: Step::BindExchange {
                    source: exchange,
                    destination: bindings[j].exchange,
                    args: bind_args_of(bindings[j]),
                },
                outcome: Ok(()),
            }),
        after[before.len() + 1 + 2 * k].step == (Step::DeclareExchange {
            exchange: bindings[k].exchange,
        }),
{
    let plan = exchange_plan(exchange, bindings);
    law_failure_ends_run(before, after, plan, result, at);
    let first: int = 0;
    assert(after[before.len() + first].step == plan[first]);
    assert forall|j: int| #![trigger bindings[j]] 0 <= j < k implies after[before.len() + 1 + 2
        * j] == (Attempt {
        step: Step::DeclareExchange { exchange: bindings[j].exchange },
        outcome: Ok(()),
    }) && after[before.len() + 2 + 2 * j] == (Attempt {
        step: Step::BindExchange {
            source: exchange,
            destination: bindings[j].exchange,
            args: bind_args_of(bindings[j]),
        },
        outcome: Ok(()),
    }) by {
        assert(after[before.len() + (1 + 2 * j)].step == plan[1 + 2 * j]);
        assert(after[before.len() + (2 + 2 * j)].step == plan[2 + 2 * j]);
    }
    assert(after[before.len() + (1 + 2 * k)].step == plan[1 + 2 * k]);
}

/// Where the first declaration fails, of the queue or of the exchange that is
/// to be bound, the run is that one call: no binding is attempted.
pub proof fn law_failed_declaration_ends_run(
    before: Seq<Attempt>,
    after: Seq<Attempt>,
    plan: Seq<Step>,
    result: ConfiguratorResult,
)
    requires
        fail_fast(before, after, plan, result),
        after[before.len() as int].outcome is Err,
    ensures
        result is Err,
        after == before.push(Attempt { step: plan[0], outcome: result }),
{
    let first: int = 0;
    assert(after[before.len() + first].outcome is Err);
    law_failure_ends_run(before, after, plan, result, first);
    assert(after.subrange(0, before.len() as int) =~= after.drop_last());
    assert(after =~= before.push(Attempt { step: plan[0], outcome: result }));
}

/// What a run does and gives is settled by the plan and by what the operator
/// answers: two runs of one plan from one history, in which the operator
/// answered alike as far as both went, made the same calls and gave the same
/// result.
pub proof fn law_run_is_settled_by_answers(
    before: Seq<Attempt>,
    plan: Seq<Step>,
    first: Seq<Attempt>,
    first_result: ConfiguratorResult,
    second: Seq<Attempt>,
    second_result: ConfiguratorResult,
)
    requires
        fail_fast(before, first, plan, first_result),
        fail_fast(before, second, plan, second_result),
        forall|i: int|
            before.len() <= i < first.len() && i < second.len() ==> first[i].outcome
                == second[i].outcome,
    ensures
        first == second,
        first_result == second_result,
{
    if first.len() < second.len() {
        let last: int = first.len() - 1 - before.len();
        assert(second[before.len() + last].outcome is Ok);
        assert(first[before.len() + last].outcome == first_result);
    }
    if second.len() < first.len() {
        let last: int = second.len() - 1 - before.len();
        assert(first[before.len() + last].outcome is Ok);
        assert(second[before.len() + last].outcome == second_result);
    }
    assert(first.len() == second.len());
    assert forall|i: int| 0 <= i < first.len() implies first[i] == second[i] by {
        if i < before.len() {
            assert(first[i] == first.subrange(0, before.len() as int)[i]);
            assert(second[i] == second.subrange(0, before.len() as int)[i]);
        } else {
            let at: int = i - before.len();
            assert(first[before.len() + at].step == plan[at]);
            assert(second[before.len() + at].step == plan[at]);
        }
    }
    assert(first =~= second);
}

} // verus!
