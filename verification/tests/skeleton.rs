use rtt::PlannerInit;

#[derive(PartialEq, Debug)]
enum Expect {
    PlannerInit,
    Planner,
    PlannerRttNode,
    PlannerReadyToSample(usize),
    PlannerSample(usize),
    PlannerClosestNodeFound(usize),
}

#[test]
fn skeleton() {
    let planner = PlannerInit::new(Expect::PlannerInit);
    let planner = planner.add_root_ok(|rtt| {
        assert_eq!(rtt, Expect::PlannerInit);
        Ok::<_, rtt::NeverError>(Expect::Planner)
    });

    let mut planner_node = planner.root_node_ok(|rtt| {
        assert_eq!(rtt, Expect::Planner);
        Ok::<_, rtt::NeverError>((Expect::PlannerRttNode, 1usize))
    });

    let mut sample_counter = 0usize;
    loop {
        let expected_nodes_count = sample_counter / 2 + 1;
        assert_eq!(planner_node.rtt(), &Expect::PlannerRttNode);
        assert_eq!(planner_node.node_ref(), &expected_nodes_count);
        if *planner_node.node_ref() >= 10 {
            break;
        }

        let mut planner_ready_to_sample = planner_node.prepare_sample_ok(|rtt, node_ref| {
            assert_eq!(rtt, Expect::PlannerRttNode);
            Ok::<_, rtt::NeverError>(Expect::PlannerReadyToSample(node_ref))
        });

        loop {
            let planner_sample = planner_ready_to_sample.sample_ok(|rtt| {
                assert_eq!(rtt, Expect::PlannerReadyToSample(expected_nodes_count));
                sample_counter += 1;
                Ok::<_, rtt::NeverError>((Expect::PlannerSample(expected_nodes_count), sample_counter))
            });
            assert_eq!(planner_sample.sample(), &sample_counter);

            let planner_closest = planner_sample.closest_to_sample_ok(|rtt, sample: &usize| {
                assert_eq!(rtt, Expect::PlannerSample(expected_nodes_count));
                assert_eq!(sample, &sample_counter);
                Ok::<_, rtt::NeverError>((
                    Expect::PlannerClosestNodeFound(expected_nodes_count),
                    expected_nodes_count,
                ))
            });

            if sample_counter % 2 == 0 {
                planner_node = planner_closest.has_transition_ok(|rtt, node_ref, sample| {
                    assert_eq!(rtt, Expect::PlannerClosestNodeFound(expected_nodes_count));
                    assert_eq!(sample, sample_counter);
                    Ok::<_, rtt::NeverError>((Expect::PlannerRttNode, node_ref + 1))
                });
                break;
            } else {
                planner_ready_to_sample = planner_closest.no_transition_ok(|rtt, _node_ref| {
                    assert_eq!(rtt, Expect::PlannerClosestNodeFound(expected_nodes_count));
                    Ok::<_, rtt::NeverError>(Expect::PlannerReadyToSample(expected_nodes_count))
                });
            }
        }
    }

    let path = planner_node.into_path_ok(|rtt, node_ref| {
        assert_eq!(rtt, Expect::PlannerRttNode);
        Ok::<_, rtt::NeverError>(node_ref)
    });
    assert_eq!(path, sample_counter / 2 + 1);
}
