use intricate::commands::Command;
use intricate::device::ComputeContext;
use intricate::device::DeviceBuffer;
use intricate::layers::activations::tanh::TanH;
use intricate::layers::dense::Dense;
use intricate::layers::LayerError;
use intricate::loss_functions::compile_losses;
use intricate::loss_functions::mean_squared::MeanSquared;
use intricate::loss_functions::LossComputationError;
use intricate::loss_functions::LossFunction;
use intricate::loss_functions::LossToModelOutputsDerivativesComputationError;
use intricate::model::Model;
use intricate::model::Step;
use intricate::training::begin_batch;
use intricate::training::end_batch;
use intricate::training::finish_step;
use intricate::training::is_ready_for;
use intricate::training::plan_step;
use intricate::training::BatchPass;
use intricate::training::StepError;
use intricate::training::StepPlan;
use intricate::types::ModelLossFunction;

fn small_model() -> Model<f32> {
    Model::new(vec![Dense::new(2, 3, vec![0.0; 9]).unwrap(), TanH::new(3)])
}

fn ready(model: &mut Model<f32>) -> (ComputeContext, ModelLossFunction) {
    let mut ctx = ComputeContext::new(1);
    for layer in 0..model.len() {
        let plan = model.init_layer(&mut ctx, layer).unwrap();
        for step in &plan.compilation {
            ctx.completed(*step);
        }
        model.finish_init_layer(layer, &plan);
    }
    for step in compile_losses(&ctx) {
        ctx.completed(step);
    }
    let mut loss = MeanSquared::new();
    LossFunction::<f32>::init(&mut loss, &ctx);
    (ctx, loss)
}

#[test]
fn a_batch_begins_with_its_inputs() {
    let inputs = DeviceBuffer { id: 40, len: 8 };
    let expected = DeviceBuffer { id: 41, len: 12 };
    assert_eq!(
        begin_batch(inputs, expected, 4),
        BatchPass {
            next_step: 0,
            inputs,
            expected_outputs: expected,
            samples_amount: 4,
            outputs: inputs,
            derivative: None,
        }
    );
}

#[test]
fn a_pass_hands_each_result_to_the_next_step() {
    let mut model = small_model();
    let (mut ctx, loss) = ready(&mut model);
    let steps = model.steps(true);
    let inputs = DeviceBuffer { id: 40, len: 8 };
    let expected = DeviceBuffer { id: 41, len: 12 };
    let mut pass = begin_batch(inputs, expected, 4);

    // Forward through the dense layer.
    assert!(is_ready_for(&model, &steps, &pass));
    let plan = plan_step(&model, &mut ctx, &loss, &steps, &pass, 0.1).unwrap();
    assert_eq!(plan.layer(), Some(0));
    let dense_outputs = match &plan {
        StepPlan::Propagate { layer: 0, propagation: plan } => plan.outputs,
        other => panic!("expected the forward step of layer 0, found {:?}", other),
    };
    assert_eq!(dense_outputs.len, 12);
    assert_eq!(plan.commands().len(), 5);
    assert_eq!(finish_step(&mut model, &mut pass, &plan), vec![]);
    assert_eq!(pass.next_step, 1);
    assert_eq!(pass.outputs, dense_outputs);

    // Forward through the activation.
    let plan = plan_step(&model, &mut ctx, &loss, &steps, &pass, 0.1).unwrap();
    let outputs = match &plan {
        StepPlan::Propagate { layer: 1, propagation: plan } => plan.outputs,
        other => panic!("expected the forward step of layer 1, found {:?}", other),
    };
    finish_step(&mut model, &mut pass, &plan);
    assert_eq!(pass.outputs, outputs);

    // The loss looks at the last outputs and changes nothing.
    let plan = plan_step(&model, &mut ctx, &loss, &steps, &pass, 0.1).unwrap();
    assert_eq!(plan.layer(), None);
    match &plan {
        StepPlan::ComputeLoss { computation: plan } => {
            assert_eq!((plan.samples_amount, plan.outputs_amount), (4, 3));
        }
        other => panic!("expected the loss, found {:?}", other),
    }
    let before = pass;
    assert_eq!(finish_step(&mut model, &mut pass, &plan), vec![]);
    assert_eq!(pass, BatchPass { next_step: 3, ..before });

    // Its derivative starts to flow back.
    let plan = plan_step(&model, &mut ctx, &loss, &steps, &pass, 0.1).unwrap();
    let loss_derivative = match &plan {
        StepPlan::ComputeLossDerivatives { derivation: plan } => plan.derivatives,
        other => panic!("expected the derivative of the loss, found {:?}", other),
    };
    assert_eq!(finish_step(&mut model, &mut pass, &plan), vec![]);
    assert_eq!(pass.derivative, Some(loss_derivative));
    assert_eq!(pass.outputs, outputs);

    // Back through the activation: the derivative it took is freed.
    assert_eq!(
        steps[4],
        Step::BackPropagate { layer: 1, should_calculate_input_to_error_derivative: true }
    );
    assert!(is_ready_for(&model, &steps, &pass));
    let plan = plan_step(&model, &mut ctx, &loss, &steps, &pass, 0.1).unwrap();
    let activation_derivative = match &plan {
        StepPlan::BackPropagate { layer: 1, back_propagation: plan } => plan.input_derivatives.unwrap(),
        other => panic!("expected the backward step of layer 1, found {:?}", other),
    };
    assert_eq!(
        finish_step(&mut model, &mut pass, &plan),
        vec![Command::ReleaseBuffer { buffer: loss_derivative }]
    );
    assert_eq!(pass.derivative, Some(activation_derivative));

    // Back through the dense layer, which is the first: its old
    // parameters and the derivative it took are freed, and nothing flows
    // on.
    let plan = plan_step(&model, &mut ctx, &loss, &steps, &pass, 0.1).unwrap();
    let superseded = finish_step(&mut model, &mut pass, &plan);
    assert_eq!(superseded.len(), 3);
    assert_eq!(superseded[2], Command::ReleaseBuffer { buffer: activation_derivative });
    assert_eq!(pass.derivative, None);
    assert_eq!(pass.next_step, steps.len());
    assert!(!is_ready_for(&model, &steps, &pass));

    let cleanup: Vec<Command<f32>> = end_batch(&pass);
    assert_eq!(
        cleanup,
        vec![Command::ReleaseBuffer { buffer: inputs }, Command::ReleaseBuffer { buffer: expected }]
    );
}

#[test]
fn a_batch_that_is_given_up_frees_what_flows_back() {
    let derivative = DeviceBuffer { id: 42, len: 12 };
    let pass = BatchPass {
        next_step: 5,
        inputs: DeviceBuffer { id: 40, len: 8 },
        expected_outputs: DeviceBuffer { id: 41, len: 12 },
        samples_amount: 4,
        outputs: DeviceBuffer { id: 7, len: 12 },
        derivative: Some(derivative),
    };
    let cleanup: Vec<Command<f32>> = end_batch(&pass);
    assert_eq!(cleanup.len(), 3);
    assert_eq!(cleanup[2], Command::ReleaseBuffer { buffer: derivative });
}

#[test]
fn a_step_is_ready_when_its_layer_is() {
    let mut model = small_model();
    let steps = model.steps(false);
    let pass = begin_batch(DeviceBuffer { id: 40, len: 8 }, DeviceBuffer { id: 41, len: 12 }, 4);
    // The dense layer is not initialized yet.
    assert!(!is_ready_for(&model, &steps, &pass));
    let (_, _) = ready(&mut model);
    assert!(is_ready_for(&model, &steps, &pass));
    // The loss needs no layer.
    assert!(is_ready_for(&model, &steps, &BatchPass { next_step: 2, ..pass }));
    // Going back needs a derivative and a forward pass.
    assert!(!is_ready_for(&model, &steps, &BatchPass { next_step: 3, ..pass }));
    assert!(!is_ready_for(
        &model,
        &steps,
        &BatchPass { next_step: 3, derivative: Some(DeviceBuffer { id: 9, len: 12 }), ..pass }
    ));
    // There is no step past the last.
    assert!(!is_ready_for(&model, &steps, &BatchPass { next_step: 5, ..pass }));
    // A step for a layer that the model lacks is never ready.
    assert!(!is_ready_for(&model, &vec![Step::Propagate { layer: 2 }], &pass));
}

#[test]
fn each_step_reports_its_own_error() {
    let mut model = small_model();
    let (mut ctx, loss) = ready(&mut model);
    let steps = model.steps(true);
    let pass = begin_batch(DeviceBuffer { id: 40, len: 8 }, DeviceBuffer { id: 41, len: 11 }, 4);
    let mut no_queue = ComputeContext::new(0);
    assert_eq!(
        plan_step(&model, &mut no_queue, &loss, &steps, &pass, 0.1).unwrap_err(),
        StepError::Layer(LayerError::NoCommandQueue)
    );
    let at_loss = BatchPass { next_step: 2, outputs: DeviceBuffer { id: 7, len: 12 }, ..pass };
    assert_eq!(
        plan_step(&model, &mut ctx, &loss, &steps, &at_loss, 0.1).unwrap_err(),
        StepError::LossComputation(LossComputationError::OutputsAndExpectedOutputsDoNotMatch)
    );
    let at_derivative = BatchPass { next_step: 3, ..at_loss };
    assert_eq!(
        plan_step(&model, &mut ctx, &loss, &steps, &at_derivative, 0.1).unwrap_err(),
        StepError::LossDerivatives(
            LossToModelOutputsDerivativesComputationError::OutputsAndExpectedOutputsDoNotMatch
        )
    );
}
