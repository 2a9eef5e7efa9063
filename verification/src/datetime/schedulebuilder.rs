//! The builder of payment schedules, which lives beside the schedule itself.

pub use crate::datetime::schedule::{built_schedule, ScheduleBuilder, ScheduleBuilderModel};
