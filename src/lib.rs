//! Reactive streams with verified contracts. A `Hub` owns the subjects, the
//! subscription slots, the take-until stages and the observers of one
//! pipeline; handles name them by index. Time-driven producers run on a
//! `ManualScheduler`, whose clock moves only when told to.

pub mod notification;
pub mod hub;
pub mod take_until;
pub mod subject;
pub mod scheduler;
pub mod interval;
pub mod spawn;
pub mod laws;

pub use notification::{Notification, Terminal};
pub use hub::{Downstream, Hub, SlotSubscription, Target, TakeUntilNotifierObserver, Upstream};
pub use take_until::{Source, TakeUntilOp};
pub use subject::{
    BehaviorSubject, Subject, SharedBehaviorSubject, SharedSubject, _LocalBehaviorSubject,
    _LocalSubject,
};
pub use scheduler::{Firing, ManualScheduler, TaskHandle, first_delay};
pub use interval::{IntervalObservable, interval, interval_at};
pub use spawn::SpawnHandle;
