//! A utility for routing received frames inside an interface.
//!
//! The design of some interface implementations requires processing some frames in the background
//! task and others in the user's task, when a certain operation is initiated through the interface
//! control.
//!
//! ## Basic Operation
//! The router has two queues, which are labeled foreground and background, and routes the frame
//! based on the currently active operation. By default all frames are routed to the background
//! queue, which would usually terminate in the background task. If an operation is started for the
//! foreground queue, all frames that are relevant for it will be routed to the foreground queue. It
//! is also possible to start an operation for the background queue, although this doesn't
//! influence routing, since all otherwise unmatched frames go to the background queue, but instead
//! prevents starting an operation for the foreground queue.
use vstd::prelude::*;

use crate::frame::parse_generic;
use crate::queue::HandleQueue;

verus! {

/// The queues inside the [RxRouter].
#[derive(Clone, Copy, Debug, PartialEq, Eq, Structural)]
pub enum RxRouterQueue {
    /// Queue for foreground operations.
    ///
    /// This is usually for running operations, which were initiated through the user control
    /// struct, in the user context.
    Foreground,
    /// Queue for the background task.
    Background,
}

impl Default for RxRouterQueue {
    fn default() -> (queue: Self)
        ensures
            queue == RxRouterQueue::Foreground,
    {
        RxRouterQueue::Foreground
    }
}

impl RxRouterQueue {
    /// The opposing router queue.
    pub open spec fn spec_opposite(&self) -> RxRouterQueue {
        match self {
            RxRouterQueue::Foreground => RxRouterQueue::Background,
            RxRouterQueue::Background => RxRouterQueue::Foreground,
        }
    }

    /// Get the opposing router queue.
    pub fn opposite(&self) -> (queue: Self)
        ensures
            queue == self.spec_opposite(),
            queue != *self,
            queue.spec_opposite() == *self,
    {
        match self {
            RxRouterQueue::Foreground => RxRouterQueue::Background,
            RxRouterQueue::Background => RxRouterQueue::Foreground,
        }
    }
}

/// A trait implemented by an enum containing operations for the [RxRouter].
pub trait RxRouterOperation: Copy {
    /// Whether concurrent operations are supported.
    spec fn spec_concurrent() -> bool;

    /// Whether a frame is relevant for this operation.
    spec fn relevant(&self, frame: Seq<u8>) -> bool;

    /// Whether this operation can happen concurrently with the other one.
    spec fn compatible(&self, other: &Self) -> bool;

    /// Check whether concurrent operations are supported.
    fn concurrent_operations_supported() -> (supported: bool)
        ensures
            supported == Self::spec_concurrent(),
    ;

    /// Check if the frame is relevant for this operation.
    fn frame_relevant_for_operation(&self, frame: &[u8]) -> (relevant: bool)
        requires
            frame@.len() >= 10,
        ensures
            relevant == self.relevant(frame@),
    ;

    /// Check if this operation can happen concurrently with the specified one.
    fn compatible_with(&self, other: &Self) -> (compatible: bool)
        ensures
            compatible == self.compatible(other),
    ;
}

/// A trait indicating the presence of a scan like operation.
///
/// It is expected that frames like beacons and probe responses will be matched for this operation.
pub trait HasScanOperation: RxRouterOperation {
    /// The scan like operation.
    spec fn spec_scan_operation() -> Self;

    /// Get the scan like operation.
    fn scan_operation() -> (operation: Self)
        ensures
            operation == Self::spec_scan_operation(),
    ;
}

/// Errors related to router operations.
#[derive(Clone, Copy, Debug, PartialEq, Eq, Structural)]
pub enum RxRouterOperationError {
    /// Another router operation is already in progress.
    OperationAlreadyInProgress,
    /// The requested operation is incompatible with the one on the other queue.
    IncompatibleOperations,
}

/// An error related to the routing of a received frame.
#[derive(Clone, Copy, Debug, PartialEq, Eq, Structural)]
pub enum RxRouterRoutingError {
    /// The queue that the frame was supposed to be routed to is full.
    QueueFull,
    /// The frame could not be parsed.
    InvalidFrame,
}

/// The requested operation transition is not possible, due to it being incompatible with another
/// currently active operation.
#[derive(Clone, Copy, Debug, PartialEq, Eq, Structural)]
pub struct TransitionNotPossibleError;

/// State of one of the router queues.
pub struct QueueState<Operation> {
    /// Handles of the frames.
    pub queue: HandleQueue,
    /// The active operation.
    pub operation_state: Option<Operation>,
}

impl<Operation: RxRouterOperation> QueueState<Operation> {
    /// Whether a frame is relevant for the active operation, if there is one.
    pub open spec fn relevant(&self, frame: Seq<u8>) -> bool {
        self.operation_state matches Some(operation) && operation.relevant(frame)
    }

    fn new(depth: usize) -> (state: Self)
        ensures
            state.queue.wf(),
            state.queue@.len() == 0,
            state.queue.spec_capacity() == depth,
            state.operation_state is None,
    {
        Self { queue: HandleQueue::new(depth), operation_state: None }
    }

    fn frame_relevant_for_operation(&self, frame: &[u8]) -> (relevant: bool)
        requires
            frame@.len() >= 10,
        ensures
            relevant == self.relevant(frame@),
    {
        match &self.operation_state {
            Some(operation) => operation.frame_relevant_for_operation(frame),
            None => false,
        }
    }

    fn operation_active(&self) -> (active: bool)
        ensures
            active == self.operation_state is Some,
    {
        self.operation_state.is_some()
    }

    /// Whether this holds the same frames and the same operation as `before`.
    pub open spec fn is_same(&self, before: QueueState<Operation>) -> bool {
        &&& self.queue@ == before.queue@
        &&& self.queue.spec_capacity() == before.queue.spec_capacity()
        &&& self.operation_state == before.operation_state
    }
}

/// The receive router, with queues of `QUEUE_DEPTH` frames.
pub struct RxRouter<const QUEUE_DEPTH: usize, Operation> {
    /// State of the foreground queue.
    pub foreground_queue_state: QueueState<Operation>,
    /// State of the background queue.
    pub background_queue_state: QueueState<Operation>,
    /// Whether an operation has completed since the last one was started.
    pub completion_signaled: bool,
}

impl<const QUEUE_DEPTH: usize, Operation: RxRouterOperation> RxRouter<QUEUE_DEPTH, Operation> {
    /// Both queues are well formed, and of the right depth.
    pub open spec fn wf(&self) -> bool {
        &&& self.foreground_queue_state.queue.wf()
        &&& self.background_queue_state.queue.wf()
        &&& self.foreground_queue_state.queue.spec_capacity() == QUEUE_DEPTH
        &&& self.background_queue_state.queue.spec_capacity() == QUEUE_DEPTH
    }

    /// The state of a queue.
    pub open spec fn state(&self, router_queue: RxRouterQueue) -> QueueState<Operation> {
        match router_queue {
            RxRouterQueue::Foreground => self.foreground_queue_state,
            RxRouterQueue::Background => self.background_queue_state,
        }
    }

    /// Whether the queues hold the same frames as in `before`, and one of them the same operation.
    pub open spec fn keeps(&self, before: Self, operation_kept: RxRouterQueue) -> bool {
        &&& self.foreground_queue_state.queue == before.foreground_queue_state.queue
        &&& self.background_queue_state.queue == before.background_queue_state.queue
        &&& self.state(operation_kept).operation_state == before.state(
            operation_kept,
        ).operation_state
    }

    /// What routing a frame leads to: it goes to the queue that it belongs to, unless that is full.
    pub open spec fn is_after_route(
        &self,
        before: Self,
        frame: Seq<u8>,
        handle: usize,
        result: Result<Option<RxRouterQueue>, RxRouterRoutingError>,
    ) -> bool {
        &&& self.completion_signaled == before.completion_signaled
        &&& self.foreground_queue_state.operation_state
            == before.foreground_queue_state.operation_state
        &&& self.background_queue_state.operation_state
            == before.background_queue_state.operation_state
        &&& result == if frame.len() < 10 {
            Err(RxRouterRoutingError::InvalidFrame)
        } else {
            match before.target(frame) {
                Some(queue) if before.state(queue).queue@.len() >= QUEUE_DEPTH => Err(
                    RxRouterRoutingError::QueueFull,
                ),
                target => Ok(target),
            }
        }
        &&& match result {
            Ok(Some(queue)) => {
                &&& self.state(queue).queue@ == before.state(queue).queue@.push(handle)
                &&& self.state(queue.spec_opposite()).queue@ == before.state(
                    queue.spec_opposite(),
                ).queue@
            },
            _ => {
                &&& self.foreground_queue_state.queue@ == before.foreground_queue_state.queue@
                &&& self.background_queue_state.queue@ == before.background_queue_state.queue@
            },
        }
    }

    /// Create a new router.
    pub fn new() -> (router: Self)
        ensures
            router.wf(),
            router.foreground_queue_state.queue@.len() == 0,
            router.background_queue_state.queue@.len() == 0,
            router.foreground_queue_state.operation_state is None,
            router.background_queue_state.operation_state is None,
            !router.completion_signaled,
    {
        Self {
            foreground_queue_state: QueueState::new(QUEUE_DEPTH),
            background_queue_state: QueueState::new(QUEUE_DEPTH),
            completion_signaled: false,
        }
    }

    /// Where a frame goes; nowhere if an operation on the background queue has no use for it.
    pub open spec fn target(&self, frame: Seq<u8>) -> Option<RxRouterQueue> {
        if self.foreground_queue_state.relevant(frame) {
            Some(RxRouterQueue::Foreground)
        } else if !Operation::spec_concurrent()
            || self.background_queue_state.operation_state is None
            || self.background_queue_state.relevant(frame) {
            Some(RxRouterQueue::Background)
        } else {
            None
        }
    }

    /// Route a frame to the correct queue.
    ///
    /// Returns the queue that now holds the handle of the frame; nothing if the frame is of no use.
    pub fn route_frame(&mut self, frame: &[u8], handle: usize) -> (result: Result<
        Option<RxRouterQueue>,
        RxRouterRoutingError,
    >)
        requires
            old(self).wf(),
        ensures
            final(self).wf(),
            final(self).is_after_route(*old(self), frame@, handle, result),
    {
        if parse_generic(frame).is_none() {
            return Err(RxRouterRoutingError::InvalidFrame);
        }
        let router_queue = if self.foreground_queue_state.frame_relevant_for_operation(frame) {
            RxRouterQueue::Foreground
        } else if !Operation::concurrent_operations_supported()
            || !self.background_queue_state.operation_active()
            || self.background_queue_state.frame_relevant_for_operation(frame) {
            RxRouterQueue::Background
        } else {
            return Ok(None);
        };
        let sent = match router_queue {
            RxRouterQueue::Foreground => self.foreground_queue_state.queue.try_send(handle),
            RxRouterQueue::Background => self.background_queue_state.queue.try_send(handle),
        };
        if sent {
            Ok(Some(router_queue))
        } else {
            Err(RxRouterRoutingError::QueueFull)
        }
    }

    /// Get the currently active operation for the specified queue.
    pub fn operation(&self, router_queue: RxRouterQueue) -> (operation: Option<Operation>)
        ensures
            operation == self.state(router_queue).operation_state,
    {
        match router_queue {
            RxRouterQueue::Foreground => self.foreground_queue_state.operation_state,
            RxRouterQueue::Background => self.background_queue_state.operation_state,
        }
    }

    /// Take the frame that was routed to a queue first.
    pub fn receive(&mut self, router_queue: RxRouterQueue) -> (handle: Option<usize>)
        requires
            old(self).wf(),
        ensures
            final(self).wf(),
            final(self).completion_signaled == old(self).completion_signaled,
            final(self).state(router_queue.spec_opposite()) == old(self).state(
                router_queue.spec_opposite(),
            ),
            final(self).state(router_queue).operation_state == old(self).state(
                router_queue,
            ).operation_state,
            handle is Some == (old(self).state(router_queue).queue@.len() > 0),
            handle matches Some(handle) ==> {
                &&& handle == old(self).state(router_queue).queue@.first()
                &&& final(self).state(router_queue).queue@ == old(self).state(
                    router_queue,
                ).queue@.drop_first()
            },
            handle is None ==> final(self).state(router_queue).queue@ == old(self).state(
                router_queue,
            ).queue@,
    {
        match router_queue {
            RxRouterQueue::Foreground => self.foreground_queue_state.queue.try_receive(),
            RxRouterQueue::Background => self.background_queue_state.queue.try_receive(),
        }
    }

    /// Whether an operation can be started, or why not: it depends on the other queue alone.
    pub open spec fn spec_can_start_operation(
        &self,
        router_queue: RxRouterQueue,
        operation: Operation,
    ) -> Result<(), RxRouterOperationError> {
        match self.state(router_queue.spec_opposite()).operation_state {
            Some(opposing) => {
                if !Operation::spec_concurrent() {
                    Err(RxRouterOperationError::OperationAlreadyInProgress)
                } else if !opposing.compatible(&operation) {
                    Err(RxRouterOperationError::IncompatibleOperations)
                } else {
                    Ok(())
                }
            },
            None => Ok(()),
        }
    }

    /// Check if the operation can be started.
    pub fn can_start_operation(&self, router_queue: RxRouterQueue, operation: Operation) -> (result:
        Result<(), RxRouterOperationError>)
        ensures
            result == self.spec_can_start_operation(router_queue, operation),
    {
        match self.operation(router_queue.opposite()) {
            Some(opposing_operation) => {
                if !Operation::concurrent_operations_supported() {
                    Err(RxRouterOperationError::OperationAlreadyInProgress)
                } else if !opposing_operation.compatible_with(&operation) {
                    Err(RxRouterOperationError::IncompatibleOperations)
                } else {
                    Ok(())
                }
            },
            None => Ok(()),
        }
    }

    fn set_operation(&mut self, router_queue: RxRouterQueue, operation: Option<Operation>)
        ensures
            final(self).keeps(*old(self), router_queue.spec_opposite()),
            final(self).state(router_queue).operation_state == operation,
            final(self).completion_signaled == old(self).completion_signaled,
    {
        match router_queue {
            RxRouterQueue::Foreground => {
                self.foreground_queue_state.operation_state = operation;
            },
            RxRouterQueue::Background => {
                self.background_queue_state.operation_state = operation;
            },
        }
    }

    fn start_operation_internal(&mut self, router_queue: RxRouterQueue, operation: Operation)
        ensures
            final(self).keeps(*old(self), router_queue.spec_opposite()),
            final(self).state(router_queue).operation_state == Some(operation),
            !final(self).completion_signaled,
    {
        self.completion_signaled = false;
        self.set_operation(router_queue, Some(operation));
    }

    /// Attempt to start a router operation.
    pub fn try_start_operation(&mut self, router_queue: RxRouterQueue, operation: Operation)
        -> (result: Result<RxRouterScopedOperation, RxRouterOperationError>)
        requires
            old(self).wf(),
        ensures
            final(self).wf(),
            final(self).keeps(*old(self), router_queue.spec_opposite()),
            match old(self).spec_can_start_operation(router_queue, operation) {
                Ok(()) => {
                    &&& result == Ok::<_, RxRouterOperationError>(
                        RxRouterScopedOperation { router_queue },
                    )
                    &&& final(self).state(router_queue).operation_state == Some(operation)
                    &&& !final(self).completion_signaled
                },
                Err(error) => {
                    &&& result == Err::<RxRouterScopedOperation, _>(error)
                    &&& *final(self) == *old(self)
                },
            },
    {
        match self.can_start_operation(router_queue, operation) {
            Ok(()) => {
                self.start_operation_internal(router_queue, operation);
                Ok(RxRouterScopedOperation { router_queue })
            },
            Err(error) => Err(error),
        }
    }

    /// Start an operation, after waiting for another operation to finish where that is needed.
    ///
    /// Where nothing is returned, the completion of an operation has to be awaited before this is
    /// called again with `waited` set. The operation is then started in any case.
    pub fn start_operation(
        &mut self,
        router_queue: RxRouterQueue,
        operation: Operation,
        waited: bool,
    ) -> (started: Option<RxRouterScopedOperation>)
        requires
            old(self).wf(),
        ensures
            final(self).wf(),
            final(self).keeps(*old(self), router_queue.spec_opposite()),
            started is Some == (waited || old(self).spec_can_start_operation(
                router_queue,
                operation,
            ) is Ok),
            started matches Some(started) ==> {
                &&& started.router_queue == router_queue
                &&& final(self).state(router_queue).operation_state == Some(operation)
                &&& !final(self).completion_signaled
            },
            started is None ==> *final(self) == *old(self),
    {
        if !waited && self.can_start_operation(router_queue, operation).is_err() {
            return None;
        }
        self.start_operation_internal(router_queue, operation);
        Some(RxRouterScopedOperation { router_queue })
    }

    /// Take the signal that an operation has completed.
    pub fn take_completion_signal(&mut self) -> (signaled: bool)
        ensures
            signaled == old(self).completion_signaled,
            *final(self) == (RxRouter { completion_signaled: false, ..*old(self) }),
    {
        let signaled = self.completion_signaled;
        self.completion_signaled = false;
        signaled
    }
}

/// A scoped router operation.
///
/// It has to be ended by [RxRouterScopedOperation::complete].
#[derive(Debug)]
pub struct RxRouterScopedOperation {
    /// The queue for which the operation was started.
    pub router_queue: RxRouterQueue,
}

impl RxRouterScopedOperation {
    /// Get the current operation, including any transition made by this guard.
    pub fn operation<const QUEUE_DEPTH: usize, Operation: RxRouterOperation>(
        &self,
        router: &RxRouter<QUEUE_DEPTH, Operation>,
    ) -> (operation: Operation)
        requires
            router.state(self.router_queue).operation_state is Some,
        ensures
            Some(operation) == router.state(self.router_queue).operation_state,
    {
        router.operation(self.router_queue).unwrap()
    }

    /// End the operation.
    pub fn complete<const QUEUE_DEPTH: usize, Operation: RxRouterOperation>(
        self,
        router: &mut RxRouter<QUEUE_DEPTH, Operation>,
    )
        requires
            old(router).wf(),
        ensures
            final(router).wf(),
            final(router).keeps(*old(router), self.router_queue.spec_opposite()),
            final(router).state(self.router_queue).operation_state is None,
            final(router).completion_signaled,
    {
        router.set_operation(self.router_queue, None);
        router.completion_signaled = true;
    }

    /// Transition to another operation type.
    ///
    /// If the transition is not possible, this will restore the previously active operation and
    /// return a [TransitionNotPossibleError].
    pub fn transition<const QUEUE_DEPTH: usize, Operation: RxRouterOperation>(
        &mut self,
        router: &mut RxRouter<QUEUE_DEPTH, Operation>,
        operation: Operation,
    ) -> (result: Result<(), TransitionNotPossibleError>)
        requires
            old(router).wf(),
            old(router).state(old(self).router_queue).operation_state is Some,
        ensures
            *final(self) == *old(self),
            final(router).wf(),
            final(router).keeps(*old(router), old(self).router_queue.spec_opposite()),
            !final(router).completion_signaled,
            result is Ok == old(router).spec_can_start_operation(
                old(self).router_queue,
                operation,
            ) is Ok,
            final(router).state(old(self).router_queue).operation_state == if result is Ok {
                Some(operation)
            } else {
                old(router).state(old(self).router_queue).operation_state
            },
    {
        let previous_operation = router.operation(self.router_queue).unwrap();
        router.set_operation(self.router_queue, None);
        if router.can_start_operation(self.router_queue, operation).is_ok() {
            router.start_operation_internal(self.router_queue, operation);
            Ok(())
        } else {
            router.start_operation_internal(self.router_queue, previous_operation);
            Err(TransitionNotPossibleError)
        }
    }
}

/// Without support for concurrent operations, an operation can only be started on one queue while
/// none is active on the other.
pub proof fn operations_exclude_each_other<
    const QUEUE_DEPTH: usize,
    Operation: RxRouterOperation,
>(
    router: RxRouter<QUEUE_DEPTH, Operation>,
    router_queue: RxRouterQueue,
    operation: Operation,
)
    requires
        !Operation::spec_concurrent(),
        router.spec_can_start_operation(router_queue, operation) is Ok,
    ensures
        router.state(router_queue.spec_opposite()).operation_state is None,
{
}

/// Without support for concurrent operations, every frame that can be parsed has a queue.
pub proof fn every_frame_has_a_queue<const QUEUE_DEPTH: usize, Operation: RxRouterOperation>(
    router: RxRouter<QUEUE_DEPTH, Operation>,
    frame: Seq<u8>,
)
    requires
        !Operation::spec_concurrent(),
    ensures
        router.target(frame) is Some,
        router.target(frame) == Some(RxRouterQueue::Foreground)
            <==> router.foreground_queue_state.relevant(frame),
{
}

/// An operation can be started exactly while there is none on the other queue, or one that it can happen
/// along with. The queue that it is started on does not matter.
pub proof fn operations_start_while_the_other_queue_permits<
    const QUEUE_DEPTH: usize,
    Operation: RxRouterOperation,
>(router: RxRouter<QUEUE_DEPTH, Operation>, operation: Operation)
    ensures
        router.background_queue_state.operation_state is None ==> router.spec_can_start_operation(
            RxRouterQueue::Foreground,
            operation,
        ) is Ok,
        router.foreground_queue_state.operation_state is None ==> router.spec_can_start_operation(
            RxRouterQueue::Background,
            operation,
        ) is Ok,
        router.background_queue_state.operation_state matches Some(other) ==> router
            .spec_can_start_operation(RxRouterQueue::Foreground, operation) == (
        if !Operation::spec_concurrent() {
            Err::<(), RxRouterOperationError>(RxRouterOperationError::OperationAlreadyInProgress)
        } else if !other.compatible(&operation) {
            Err::<(), RxRouterOperationError>(RxRouterOperationError::IncompatibleOperations)
        } else {
            Ok::<(), RxRouterOperationError>(())
        }),
        router.foreground_queue_state.operation_state matches Some(other) ==> router
            .spec_can_start_operation(RxRouterQueue::Background, operation) == (
        if !Operation::spec_concurrent() {
            Err::<(), RxRouterOperationError>(RxRouterOperationError::OperationAlreadyInProgress)
        } else if !other.compatible(&operation) {
            Err::<(), RxRouterOperationError>(RxRouterOperationError::IncompatibleOperations)
        } else {
            Ok::<(), RxRouterOperationError>(())
        }),
{
}

} // verus!
