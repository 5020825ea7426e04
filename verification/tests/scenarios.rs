use devs::coordinator::Config;
use devs::coordinator::Coordinator;
use devs::network::ConfigError;
use devs::network::Coupling;
use devs::network::Interface;
use devs::network::Network;
use devs::samples::Collector;
use devs::samples::Generator;
use devs::samples::SampleModel;
use devs::timing::TimeVal;

fn gen_only(initial: u64, period: u64) -> Coordinator<Generator> {
    let models = vec![Generator::new(initial, period)];
    let ifaces = vec![Interface { n_in: 0, n_out: 1 }];
    match Coordinator::new(models, ifaces, Vec::new(), 0) {
        Ok(c) => c,
        Err(_) => panic!("valid network rejected"),
    }
}

fn pair_coupled() -> Coordinator<SampleModel> {
    let models = vec![
        SampleModel::Generator(Generator::new(3, 3)),
        SampleModel::Collector(Collector::new(3)),
    ];
    let ifaces = vec![
        Interface { n_in: 0, n_out: 1 },
        Interface { n_in: 1, n_out: 1 },
    ];
    let couplings = vec![Coupling { src_model: 0, src_port: 0, dst_model: 1, dst_port: 0 }];
    match Coordinator::new(models, ifaces, couplings, 0) {
        Ok(c) => c,
        Err(_) => panic!("valid network rejected"),
    }
}

#[test]
fn periodic_generator_three_events() {
    // A single model with constant time advance 3 starting with sigma 3:
    // run from 0 to 10 and expect exactly three internal transitions,
    // at instants 3, 6 and 9; the event at 12 is beyond the end time.
    let mut coord = gen_only(3, 3);
    assert_eq!(coord.next_time(), TimeVal::At(3));
    let config = Config::new(0, TimeVal::At(10));
    let steps = coord.run(&config, 100);
    assert_eq!(steps, 3);
    assert_eq!(coord.t_now, 9);
    assert_eq!(coord.comps[0].model.count, 3);
    assert_eq!(coord.next_time(), TimeVal::At(12));
}

#[test]
fn periodic_generator_instants() {
    let mut coord = gen_only(3, 3);
    let mut instants = Vec::new();
    loop {
        match coord.next_time() {
            TimeVal::Never => break,
            TimeVal::At(t) => {
                if t > 10 {
                    break;
                }
                coord.step();
                instants.push(coord.t_now);
            }
        }
    }
    assert_eq!(instants, vec![3, 6, 9]);
}

#[test]
fn coupled_pair_external_transitions() {
    // Generator -> collector over one coupling: the generator emits every
    // 3 ticks, the collector is passive until input arrives and then has
    // sigma 3. Run 0 to 10: the collector's external transition fires at
    // 3, 6 and 9; the first sees elapsed 3 (its last event was the start
    // of the run), the later ones coincide with its own internal event and
    // see elapsed 0 under the internal-first confluent rule.
    let mut coord = pair_coupled();
    let config = Config::new(0, TimeVal::At(10));

    coord.step();
    assert_eq!(coord.t_now, 3);
    match &coord.comps[1].model {
        SampleModel::Collector(c) => {
            assert_eq!(c.received, 1);
            assert_eq!(c.last_elapsed, 3);
            assert_eq!(c.last_seen, 0);
            assert_eq!(c.sigma, TimeVal::At(3));
        }
        _ => panic!("collector expected"),
    }

    coord.step();
    assert_eq!(coord.t_now, 6);
    match &coord.comps[1].model {
        SampleModel::Collector(c) => {
            assert_eq!(c.received, 2);
            assert_eq!(c.last_elapsed, 0);
            assert_eq!(c.last_seen, 1);
            // Internal first, then external: the external transition rearms
            // the collector after its internal transition made it passive.
            assert_eq!(c.sigma, TimeVal::At(3));
        }
        _ => panic!("collector expected"),
    }
    assert_eq!(coord.comps[1].t_next, TimeVal::At(9));

    let steps = coord.run(&config, 100);
    assert_eq!(steps, 1);
    assert_eq!(coord.t_now, 9);
    match &coord.comps[1].model {
        SampleModel::Collector(c) => {
            assert_eq!(c.received, 3);
            assert_eq!(c.last_elapsed, 0);
            assert_eq!(c.last_seen, 2);
        }
        _ => panic!("collector expected"),
    }
}

#[test]
fn dangling_destination_rejected() {
    // A coupling that references a component that does not exist must be
    // rejected at construction, before any simulation step can run.
    let ifaces = vec![
        Interface { n_in: 0, n_out: 1 },
        Interface { n_in: 1, n_out: 1 },
    ];
    let couplings = vec![Coupling { src_model: 0, src_port: 0, dst_model: 5, dst_port: 0 }];
    let r = Network::new(ifaces, couplings);
    match r {
        Err(ConfigError::DestinationModelMissing { coupling }) => assert_eq!(coupling, 0),
        _ => panic!("construction must fail with a dangling destination"),
    }
}

#[test]
fn dangling_destination_rejected_by_coordinator() {
    let models = vec![
        SampleModel::Generator(Generator::new(3, 3)),
        SampleModel::Collector(Collector::new(3)),
    ];
    let ifaces = vec![
        Interface { n_in: 0, n_out: 1 },
        Interface { n_in: 1, n_out: 1 },
    ];
    let couplings = vec![Coupling { src_model: 0, src_port: 0, dst_model: 2, dst_port: 0 }];
    let r = Coordinator::new(models, ifaces, couplings, 0);
    match r {
        Err(ConfigError::DestinationModelMissing { coupling }) => assert_eq!(coupling, 0),
        _ => panic!("construction must fail with a dangling destination"),
    }
}

#[test]
fn deterministic_runs_agree() {
    // Two runs from the same initial state with the same bounds pass
    // through the same states, step for step.
    let mut a = pair_coupled();
    let mut b = pair_coupled();
    let config = Config::new(0, TimeVal::At(30));
    let steps_a = a.run(&config, 1000);
    let steps_b = b.run(&config, 1000);
    assert_eq!(steps_a, steps_b);
    assert_eq!(a.t_now, b.t_now);
    assert_eq!(a.comps.len(), b.comps.len());
    for i in 0..a.comps.len() {
        assert_eq!(a.comps[i].model, b.comps[i].model);
        assert_eq!(a.comps[i].t_last, b.comps[i].t_last);
        assert_eq!(a.comps[i].t_next, b.comps[i].t_next);
    }
}

#[test]
fn passive_model_never_fires() {
    // A model whose time advance is Never and which receives no input
    // never has its internal transition invoked: the run takes no step.
    let models = vec![SampleModel::Collector(Collector::new(3))];
    let ifaces = vec![Interface { n_in: 1, n_out: 1 }];
    let mut coord = match Coordinator::new(models, ifaces, Vec::new(), 0) {
        Ok(c) => c,
        Err(_) => panic!("valid network rejected"),
    };
    assert_eq!(coord.next_time(), TimeVal::Never);
    let config = Config::new(0, TimeVal::At(1000));
    let steps = coord.run(&config, 100);
    assert_eq!(steps, 0);
    assert_eq!(coord.t_now, 0);
    match &coord.comps[0].model {
        SampleModel::Collector(c) => {
            assert_eq!(c.received, 0);
            assert_eq!(c.sigma, TimeVal::Never);
        }
        _ => panic!("collector expected"),
    }
}
