use osaka::runtime::scheduler::{spawn_task, BlockOn, BlockOnStep, Core, Shared};
use osaka::runtime::task::{get_next_id, Id, IdCounter, OwnedTasks};
use osaka::runtime::BlockOnError;
use std::cell::{Cell, RefCell};
use std::collections::HashMap;
use std::future::Future;
use std::pin::Pin;
use std::rc::Rc;
use std::sync::{Arc, Mutex};
use std::task::{Context, Poll, Wake, Waker};

/// Records which task was woken.
struct TaskWaker {
    id: u64,
    woken: Arc<Mutex<Vec<u64>>>,
}

impl Wake for TaskWaker {
    fn wake(self: Arc<Self>) {
        self.woken.lock().unwrap().push(self.id);
    }
}

/// Records that the future that is blocked on was woken.
struct MainWaker {
    woken: Arc<Mutex<bool>>,
}

impl Wake for MainWaker {
    fn wake(self: Arc<Self>) {
        *self.woken.lock().unwrap() = true;
    }
}

/// The output slot of a spawned task and the waker of whoever joins it.
type Slot<T> = Rc<RefCell<(Option<T>, Option<Waker>)>>;

/// Waits for the output of a spawned task.
struct Join<T> {
    slot: Slot<T>,
}

impl<T> Future for Join<T> {
    type Output = Result<T, ()>;

    fn poll(self: Pin<&mut Self>, cx: &mut Context<'_>) -> Poll<Self::Output> {
        let mut slot = self.slot.borrow_mut();
        match slot.0.take() {
            Some(v) => Poll::Ready(Ok(v)),
            None => {
                slot.1 = Some(cx.waker().clone());
                Poll::Pending
            }
        }
    }
}

/// Wakes the tasks that wait at the moment it is told to.
struct Notify {
    generation: Cell<u64>,
    waiters: RefCell<Vec<Waker>>,
}

impl Notify {
    fn new() -> Notify {
        Notify { generation: Cell::new(0), waiters: RefCell::new(Vec::new()) }
    }

    fn notified(&self) -> Notified<'_> {
        Notified { notify: self, generation: self.generation.get() }
    }

    fn notify_waiters(&self) {
        self.generation.set(self.generation.get() + 1);
        for w in self.waiters.borrow_mut().drain(..) {
            w.wake();
        }
    }
}

struct Notified<'a> {
    notify: &'a Notify,
    generation: u64,
}

impl Future for Notified<'_> {
    type Output = ();

    fn poll(self: Pin<&mut Self>, cx: &mut Context<'_>) -> Poll<()> {
        if self.notify.generation.get() != self.generation {
            Poll::Ready(())
        } else {
            self.notify.waiters.borrow_mut().push(cx.waker().clone());
            Poll::Pending
        }
    }
}

/// A runtime on a single thread whose decisions are the library's.
struct Runtime {
    core: Option<Core<u64>>,
    shared: Shared<u64>,
    owned: OwnedTasks<()>,
    futures: HashMap<u64, Pin<Box<dyn Future<Output = ()>>>>,
    woken: Arc<Mutex<Vec<u64>>>,
    next_task: IdCounter,
}

impl Runtime {
    fn new() -> std::io::Result<Runtime> {
        let mut next_list = 1u64;
        Ok(Runtime {
            core: Some(Core::new()),
            shared: Shared::new(),
            owned: OwnedTasks::new(get_next_id(&mut next_list)),
            futures: HashMap::new(),
            woken: Arc::new(Mutex::new(Vec::new())),
            next_task: IdCounter::for_tasks(),
        })
    }

    fn spawn<F: Future + 'static>(&mut self, future: F) -> Join<F::Output> {
        let slot: Slot<F::Output> = Rc::new(RefCell::new((None, None)));
        let out = slot.clone();
        let id = Id::next(&mut self.next_task).as_u64();
        self.futures.insert(
            id,
            Box::pin(async move {
                let v = future.await;
                let waker = {
                    let mut s = out.borrow_mut();
                    s.0 = Some(v);
                    s.1.take()
                };
                if let Some(w) = waker {
                    w.wake();
                }
            }),
        );
        let (refused, dropped) =
            spawn_task(&mut self.owned, &mut self.shared, &mut self.core, false, id, (), id);
        assert!(refused.is_none() && dropped.is_none());
        Join { slot }
    }

    fn run_task(&mut self, core: Core<u64>, id: u64) -> Core<u64> {
        let waker = Waker::from(Arc::new(TaskWaker { id, woken: self.woken.clone() }));
        let mut cx = Context::from_waker(&waker);
        if let Some(f) = self.futures.get_mut(&id) {
            if f.as_mut().poll(&mut cx).is_ready() {
                self.futures.remove(&id);
                let owner = self.owned.id();
                self.owned.remove(owner, id);
            }
        }
        let mut core = Some(core);
        let woken: Vec<u64> = self.woken.lock().unwrap().drain(..).collect();
        for w in woken {
            let _ = self.shared.schedule(&mut core, true, w);
        }
        core.unwrap()
    }

    fn block_on<F: Future>(&mut self, future: F) -> Result<F::Output, BlockOnError> {
        let mut future = Box::pin(future);
        let main_woken = Arc::new(Mutex::new(false));
        let waker = Waker::from(Arc::new(MainWaker { woken: main_woken.clone() }));
        let mut core = self.core.take().expect("core missing");
        let mut state = BlockOn::new(&mut self.shared);
        loop {
            if std::mem::replace(&mut *main_woken.lock().unwrap(), false) {
                self.shared.wake();
            }
            match state.step(&mut core, &mut self.shared) {
                BlockOnStep::PollFuture => {
                    let mut cx = Context::from_waker(&waker);
                    if let Poll::Ready(v) = future.as_mut().poll(&mut cx) {
                        self.core = Some(core);
                        return Ok(v);
                    }
                }
                BlockOnStep::RunTask(id) => core = self.run_task(core, id),
                BlockOnStep::ParkYield => panic!("We wont park or unpark any threads"),
                BlockOnStep::Deadlock => {
                    self.core = Some(core);
                    return Err(BlockOnError::Deadlock);
                }
            }
        }
    }
}

#[test]
fn custom_main_main() -> std::io::Result<()> {
    let mut rt = Runtime::new()?;
    let notify = Rc::new(Notify::new());
    let notify2 = notify.clone();

    let h1 = rt.spawn(async move {
        notify.notified().await;
        println!("Task 1 Executed");
        42
    });

    let h2 = rt.spawn(async move {
        println!("Task 2 Executed");
        notify2.notify_waiters();
        69
    });

    let r1 = rt.block_on(h1).unwrap().unwrap();
    let r2 = rt.block_on(h2).unwrap().unwrap();

    assert_eq!(r1, 42);
    assert_eq!(r2, 69);

    Ok(())
}

#[test]
fn block_on_reports_deadlock() {
    let mut rt = Runtime::new().unwrap();
    let notify = Rc::new(Notify::new());
    let waiting = notify.clone();
    let h = rt.spawn(async move {
        waiting.notified().await;
        1
    });
    assert_eq!(rt.block_on(h).err(), Some(BlockOnError::Deadlock));
}
