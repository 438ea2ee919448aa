//! The rendezvous through which a request body hands the read buffer back
//! to the connection loop: a slot for one value, and a count of the
//! producers that may still fill it.

use vstd::prelude::*;

verus! {

/// The rendezvous cell.
pub struct Notify<T> {
    /// The value that a producer has put down and the waiter has not yet
    /// taken.
    pub value: Option<T>,
    /// The number of producers that have not gone yet.
    pub producers: usize,
    /// The waiter asked for the value and is to be woken.
    pub waiting: bool,
}

/// What the waiter finds.
pub enum Waited<T> {
    /// The value of a producer, or `None` where every producer has gone
    /// without one.
    Ready(Option<T>),
    /// A producer is still there and has put down no value.
    Pending,
}

impl<T> Notify<T> {
    /// The cell with one producer more.
    pub open spec fn with_producer(self) -> Self {
        Notify { producers: (self.producers + 1) as usize, ..self }
    }

    /// The cell after a producer has put down `val`.
    pub open spec fn with_value(self, val: T) -> Self {
        Notify { value: Some(val), ..self }
    }

    /// The cell after a producer has gone.
    pub open spec fn without_producer(self) -> Self {
        Notify { producers: (self.producers - 1) as usize, waiting: false, ..self }
    }

    /// What the waiter finds in the cell: the value where there is one;
    /// else, that there is none where no producer is left, and nothing yet
    /// where one is.
    pub open spec fn found(self) -> Waited<T> {
        match self.value {
            Some(v) => Waited::Ready(Some(v)),
            None => if self.producers == 0 {
                Waited::Ready(None)
            } else {
                Waited::Pending
            },
        }
    }

    /// The cell after the waiter has asked: a value is taken out; a waiter
    /// that found nothing yet is noted for waking.
    pub open spec fn asked(self) -> Self {
        Notify { value: None, waiting: self.waiting || self.found() is Pending, ..self }
    }

    /// A cell without value and without producers.
    pub fn new() -> (n: Self)
        ensures
            n == (Notify::<T> { value: None, producers: 0, waiting: false }),
    {
        Notify { value: None, producers: 0, waiting: false }
    }

    /// Registers a producer.
    pub fn notifier(&mut self)
        requires
            old(self).producers < usize::MAX,
        ensures
            *final(self) == old(self).with_producer(),
    {
        self.producers = self.producers + 1;
    }

    /// A producer puts down its value.
    pub fn notify(&mut self, val: T)
        ensures
            *final(self) == old(self).with_value(val),
    {
        self.value = Some(val);
    }

    /// A producer goes. Tells whether the waiter is to be woken.
    pub fn release(&mut self) -> (wake: bool)
        requires
            old(self).producers > 0,
        ensures
            wake == old(self).waiting,
            *final(self) == old(self).without_producer(),
    {
        self.producers = self.producers - 1;
        let wake = self.waiting;
        self.waiting = false;
        wake
    }

    /// The waiter asks for the value.
    pub fn wait(&mut self) -> (w: Waited<T>)
        ensures
            w == old(self).found(),
            *final(self) == old(self).asked(),
    {
        match self.value.take() {
            Some(v) => Waited::Ready(Some(v)),
            None => {
                if self.producers == 0 {
                    Waited::Ready(None)
                } else {
                    self.waiting = true;
                    Waited::Pending
                }
            },
        }
    }
}

/// The cell after a producer has gone, having put down `deposit` or
/// nothing before.
pub open spec fn after_producer<T>(cell: Notify<T>, deposit: Option<T>) -> Notify<T> {
    match deposit {
        Some(v) => cell.with_value(v).without_producer(),
        None => cell.without_producer(),
    }
}

/// The rendezvous delivers the value once, or reports once that the
/// producer has gone; never both, never neither.
///
/// Take a cell without value, for which one producer is registered. While
/// the producer is there and has put down nothing, the waiter is kept
/// waiting. Once the producer has gone, the waiter finds exactly what the
/// producer put down: the value, or the news that there is none. After
/// that the cell is empty: a value that was taken is not found a second
/// time.
pub proof fn lemma_rendezvous_once<T>(cell: Notify<T>, deposit: Option<T>)
    requires
        cell.value.is_none(),
        cell.producers == 0,
    ensures
        cell.with_producer().found() is Pending,
        cell.with_producer().asked().found() is Pending,
        after_producer(cell.with_producer(), deposit).found() == Waited::Ready(deposit),
        after_producer(cell.with_producer().asked(), deposit).found() == Waited::Ready(deposit),
        after_producer(cell.with_producer(), deposit).asked().found() == Waited::<T>::Ready(None),
{
}

} // verus!
