//! The impact map: a goal measured by metrics and influenced by actors,
//! whose impacts are served by deliverables.

use vstd::prelude::*;

verus! {

/// A business goal with its success metrics and the actors that influence it.
#[derive(Debug)]
pub struct Goal {
    pub name: String,
    pub id: String,
    pub metrics: Vec<Metric>,
    pub actors: Vec<Actor>,
}

/// A measurable success criterion of a goal.
#[derive(Debug)]
pub struct Metric {
    pub name: String,
    pub target: String,
    pub desc: String,
}

/// Someone who can help or hinder a goal; a lower `prio` is a higher priority.
#[derive(Debug)]
pub struct Actor {
    pub name: String,
    pub id: Option<String>,
    pub prio: i64,
    pub impacts: Vec<Impact>,
}

/// A change in an actor's behaviour, aimed at one metric (`targets`, by name).
#[derive(Debug)]
pub struct Impact {
    pub name: String,
    pub id: Option<String>,
    pub targets: String,
    pub prio: i64,
    pub sp: i64,
    pub deliverables: Vec<Deliverable>,
}

/// Something to build to bring an impact about, with its priority and story points.
#[derive(Debug)]
pub struct Deliverable {
    pub name: String,
    pub id: String,
    pub prio: i64,
    pub sp: i64,
}

/// The model of a [`Goal`].
pub struct GoalView {
    pub name: Seq<char>,
    pub id: Seq<char>,
    pub metrics: Seq<MetricView>,
    pub actors: Seq<ActorView>,
}

/// The model of a [`Metric`].
pub struct MetricView {
    pub name: Seq<char>,
    pub target: Seq<char>,
    pub desc: Seq<char>,
}

/// The model of an [`Actor`].
pub struct ActorView {
    pub name: Seq<char>,
    pub id: Option<Seq<char>>,
    pub prio: int,
    pub impacts: Seq<ImpactView>,
}

/// The model of an [`Impact`].
pub struct ImpactView {
    pub name: Seq<char>,
    pub id: Option<Seq<char>>,
    pub targets: Seq<char>,
    pub prio: int,
    pub sp: int,
    pub deliverables: Seq<DeliverableView>,
}

/// The model of a [`Deliverable`].
pub struct DeliverableView {
    pub name: Seq<char>,
    pub id: Seq<char>,
    pub prio: int,
    pub sp: int,
}

/// The model of an optional string.
pub open spec fn opt_text(s: Option<String>) -> Option<Seq<char>> {
    match s {
        Some(t) => Some(t@),
        None => None,
    }
}

impl View for Metric {
    type V = MetricView;

    open spec fn view(&self) -> MetricView {
        MetricView { name: self.name@, target: self.target@, desc: self.desc@ }
    }
}

impl View for Deliverable {
    type V = DeliverableView;

    open spec fn view(&self) -> DeliverableView {
        DeliverableView {
            name: self.name@,
            id: self.id@,
            prio: self.prio as int,
            sp: self.sp as int,
        }
    }
}

impl View for Impact {
    type V = ImpactView;

    open spec fn view(&self) -> ImpactView {
        ImpactView {
            name: self.name@,
            id: opt_text(self.id),
            targets: self.targets@,
            prio: self.prio as int,
            sp: self.sp as int,
            deliverables: self.deliverables@.map_values(|d: Deliverable| d@),
        }
    }
}

impl View for Actor {
    type V = ActorView;

    open spec fn view(&self) -> ActorView {
        ActorView {
            name: self.name@,
            id: opt_text(self.id),
            prio: self.prio as int,
            impacts: self.impacts@.map_values(|i: Impact| i@),
        }
    }
}

impl View for Goal {
    type V = GoalView;

    open spec fn view(&self) -> GoalView {
        GoalView {
            name: self.name@,
            id: self.id@,
            metrics: self.metrics@.map_values(|m: Metric| m@),
            actors: self.actors@.map_values(|a: Actor| a@),
        }
    }
}

/// The models of a list of goals.
pub open spec fn goals_view(goals: Seq<Goal>) -> Seq<GoalView> {
    goals.map_values(|g: Goal| g@)
}

} // verus!
