use devs::coordinator::Config;
use devs::coordinator::Coordinator;
use devs::network::ConfigError;
use devs::network::Coupling;
use devs::network::Interface;
use devs::network::Network;
use devs::samples::Collector;
use devs::samples::Generator;
use devs::samples::SampleModel;
use devs::timing::add_delay;
use devs::timing::shrink;
use devs::timing::time_le;
use devs::timing::time_min;
use devs::timing::TimeVal;

#[test]
fn time_arithmetic() {
    assert_eq!(add_delay(4, TimeVal::At(3)), TimeVal::At(7));
    assert_eq!(add_delay(4, TimeVal::Never), TimeVal::Never);
    assert_eq!(add_delay(5, TimeVal::At(u64::MAX)), TimeVal::Never);
    assert_eq!(shrink(TimeVal::At(5), 2), TimeVal::At(3));
    assert_eq!(shrink(TimeVal::At(5), 9), TimeVal::At(0));
    assert_eq!(shrink(TimeVal::Never, 9), TimeVal::Never);
    assert_eq!(time_min(TimeVal::At(2), TimeVal::Never), TimeVal::At(2));
    assert_eq!(time_min(TimeVal::At(2), TimeVal::At(1)), TimeVal::At(1));
    assert!(time_le(TimeVal::At(7), TimeVal::Never));
    assert!(!time_le(TimeVal::Never, TimeVal::At(7)));
    assert!(time_le(TimeVal::Never, TimeVal::Never));
}

#[test]
fn fan_out_delivers_to_every_destination() {
    // One source feeding two collectors: the same value reaches both.
    let models = vec![
        SampleModel::Generator(Generator::new(3, 3)),
        SampleModel::Collector(Collector::new(100)),
        SampleModel::Collector(Collector::new(100)),
    ];
    let ifaces = vec![
        Interface { n_in: 0, n_out: 1 },
        Interface { n_in: 1, n_out: 1 },
        Interface { n_in: 1, n_out: 1 },
    ];
    let couplings = vec![
        Coupling { src_model: 0, src_port: 0, dst_model: 1, dst_port: 0 },
        Coupling { src_model: 0, src_port: 0, dst_model: 2, dst_port: 0 },
    ];
    let mut coord = match Coordinator::new(models, ifaces, couplings, 0) {
        Ok(c) => c,
        Err(_) => panic!("valid network rejected"),
    };
    coord.step();
    assert_eq!(coord.t_now, 3);
    for i in 1..3 {
        match &coord.comps[i].model {
            SampleModel::Collector(c) => {
                assert_eq!(c.received, 1);
                assert_eq!(c.port_count, 1);
                assert_eq!(c.last_seen, 0);
            }
            _ => panic!("collector expected"),
        }
    }
}

fn fan_in(first_src: usize, second_src: usize) -> Collector {
    // Two sources into one input port; the port accumulates the values in
    // coupling declaration order when both fire at the same instant.
    let models = vec![
        SampleModel::Generator(Generator::new(3, 3)),
        SampleModel::Generator(Generator::new(6, 3)),
        SampleModel::Collector(Collector::new(100)),
    ];
    let ifaces = vec![
        Interface { n_in: 0, n_out: 1 },
        Interface { n_in: 0, n_out: 1 },
        Interface { n_in: 1, n_out: 1 },
    ];
    let couplings = vec![
        Coupling { src_model: first_src, src_port: 0, dst_model: 2, dst_port: 0 },
        Coupling { src_model: second_src, src_port: 0, dst_model: 2, dst_port: 0 },
    ];
    let mut coord = match Coordinator::new(models, ifaces, couplings, 0) {
        Ok(c) => c,
        Err(_) => panic!("valid network rejected"),
    };
    // t = 3: only the first generator fires (emitting 0).
    coord.step();
    assert_eq!(coord.t_now, 3);
    // t = 6: both fire; the first generator emits 1, the second emits 0.
    coord.step();
    assert_eq!(coord.t_now, 6);
    match &coord.comps[2].model {
        SampleModel::Collector(c) => c.clone(),
        _ => panic!("collector expected"),
    }
}

#[test]
fn fan_in_accumulates_in_declaration_order() {
    let c = fan_in(0, 1);
    assert_eq!(c.received, 2);
    assert_eq!(c.port_count, 2);
    // The table lists the generator that emits 1 first.
    assert_eq!(c.last_seen, 1);
}

#[test]
fn fan_in_order_follows_the_table() {
    let c = fan_in(1, 0);
    assert_eq!(c.received, 2);
    assert_eq!(c.port_count, 2);
    // With the table reversed, the generator that emits 0 comes first.
    assert_eq!(c.last_seen, 0);
}

#[test]
fn every_configuration_error_is_reported() {
    let ifaces = vec![Interface { n_in: 1, n_out: 1 }];
    let bad_src_model = vec![Coupling { src_model: 9, src_port: 0, dst_model: 0, dst_port: 0 }];
    match Network::new(ifaces.clone(), bad_src_model) {
        Err(ConfigError::SourceModelMissing { coupling }) => assert_eq!(coupling, 0),
        _ => panic!("missing source model must be reported"),
    }
    let bad_src_port = vec![Coupling { src_model: 0, src_port: 4, dst_model: 0, dst_port: 0 }];
    match Network::new(ifaces.clone(), bad_src_port) {
        Err(ConfigError::SourcePortMissing { coupling }) => assert_eq!(coupling, 0),
        _ => panic!("missing source port must be reported"),
    }
    let bad_dst_port = vec![Coupling { src_model: 0, src_port: 0, dst_model: 0, dst_port: 4 }];
    match Network::new(ifaces.clone(), bad_dst_port) {
        Err(ConfigError::DestinationPortMissing { coupling }) => assert_eq!(coupling, 0),
        _ => panic!("missing destination port must be reported"),
    }
    let second_bad = vec![
        Coupling { src_model: 0, src_port: 0, dst_model: 0, dst_port: 0 },
        Coupling { src_model: 0, src_port: 0, dst_model: 3, dst_port: 0 },
    ];
    match Network::new(ifaces, second_bad) {
        Err(ConfigError::DestinationModelMissing { coupling }) => assert_eq!(coupling, 1),
        _ => panic!("the offending coupling must be identified"),
    }
}

#[test]
fn model_count_mismatch_is_reported() {
    let models = vec![SampleModel::Collector(Collector::new(3))];
    let ifaces = vec![
        Interface { n_in: 1, n_out: 1 },
        Interface { n_in: 1, n_out: 1 },
    ];
    match Coordinator::new(models, ifaces, Vec::new(), 0) {
        Err(ConfigError::ModelCountMismatch) => {}
        _ => panic!("count mismatch must be reported"),
    }
}

#[test]
fn empty_network_runs_no_steps() {
    let mut coord: Coordinator<SampleModel> =
        match Coordinator::new(Vec::new(), Vec::new(), Vec::new(), 7) {
            Ok(c) => c,
            Err(_) => panic!("valid network rejected"),
        };
    assert_eq!(coord.next_time(), TimeVal::Never);
    let steps = coord.run(&Config::new(7, TimeVal::Never), 10);
    assert_eq!(steps, 0);
    assert_eq!(coord.t_now, 7);
}

#[test]
fn step_budget_bounds_a_run() {
    let models = vec![Generator::new(3, 3)];
    let ifaces = vec![Interface { n_in: 0, n_out: 1 }];
    let mut coord = match Coordinator::new(models, ifaces, Vec::new(), 0) {
        Ok(c) => c,
        Err(_) => panic!("valid network rejected"),
    };
    let steps = coord.run(&Config::new(0, TimeVal::Never), 2);
    assert_eq!(steps, 2);
    assert_eq!(coord.t_now, 6);
    assert_eq!(coord.comps[0].model.count, 2);
}

#[test]
fn start_time_offsets_the_schedule() {
    let models = vec![Generator::new(3, 3)];
    let ifaces = vec![Interface { n_in: 0, n_out: 1 }];
    let mut coord = match Coordinator::new(models, ifaces, Vec::new(), 100) {
        Ok(c) => c,
        Err(_) => panic!("valid network rejected"),
    };
    assert_eq!(coord.next_time(), TimeVal::At(103));
    let steps = coord.run(&Config::new(100, TimeVal::At(110)), 100);
    assert_eq!(steps, 3);
    assert_eq!(coord.t_now, 109);
}
