//! The built-in template of the HTML report.

use vstd::prelude::*;

verus! {

/// The built-in template of the HTML report.
pub const DEFAULT_TEMPLATE: &'static str = r##"<!DOCTYPE html>
<html lang="en">
<head>
    <meta charset="UTF-8">
    <meta name="viewport" content="width=device-width, initial-scale=1.0">
    <title>Waremax Simulation Report</title>
    <script src="https://cdn.jsdelivr.net/npm/chart.js"></script>
    <style>
        :root {
            --bg-color: #f5f5f5;
            --card-bg: #ffffff;
            --text-color: #333333;
            --border-color: #e0e0e0;
            --primary-color: #3498db;
            --success-color: #2ecc71;
            --warning-color: #f1c40f;
            --danger-color: #e74c3c;
        }
        * { box-sizing: border-box; margin: 0; padding: 0; }
        body {
            font-family: -apple-system, BlinkMacSystemFont, 'Segoe UI', Roboto, Oxygen, Ubuntu, sans-serif;
            background: var(--bg-color);
            color: var(--text-color);
            line-height: 1.6;
            padding: 20px;
        }
        .container { max-width: 1200px; margin: 0 auto; }
        h1 { color: var(--primary-color); margin-bottom: 20px; }
        h2 { color: var(--text-color); margin: 20px 0 10px; border-bottom: 2px solid var(--primary-color); padding-bottom: 5px; }
        .card {
            background: var(--card-bg);
            border-radius: 8px;
            padding: 20px;
            margin-bottom: 20px;
            box-shadow: 0 2px 4px rgba(0,0,0,0.1);
        }
        .grid { display: grid; grid-template-columns: repeat(auto-fit, minmax(250px, 1fr)); gap: 20px; }
        .metric { text-align: center; padding: 15px; }
        .metric-value { font-size: 2em; font-weight: bold; color: var(--primary-color); }
        .metric-label { color: #666; font-size: 0.9em; }
        table { width: 100%; border-collapse: collapse; margin: 10px 0; }
        th, td { padding: 10px; text-align: left; border-bottom: 1px solid var(--border-color); }
        th { background: var(--bg-color); font-weight: 600; }
        tr:hover { background: var(--bg-color); }
        .chart-container { position: relative; height: 300px; margin: 20px 0; }
        .status-good { color: var(--success-color); }
        .status-warn { color: var(--warning-color); }
        .status-bad { color: var(--danger-color); }
        footer { text-align: center; padding: 20px; color: #666; font-size: 0.9em; }
    </style>
</head>
<body>
    <div class="container">
        <h1>Waremax Simulation Report</h1>

        <div class="card">
            <h2>Summary</h2>
            <div class="grid">
                <div class="metric">
                    <div class="metric-value">{{ duration_hours | round(precision=2) }}h</div>
                    <div class="metric-label">Duration</div>
                </div>
                <div class="metric">
                    <div class="metric-value">{{ orders_completed }}</div>
                    <div class="metric-label">Orders Completed</div>
                </div>
                <div class="metric">
                    <div class="metric-value">{{ throughput_per_hour }}</div>
                    <div class="metric-label">Orders/Hour</div>
                </div>
                <div class="metric">
                    <div class="metric-value">{{ avg_cycle_time_s }}s</div>
                    <div class="metric-label">Avg Cycle Time</div>
                </div>
            </div>
        </div>

        <div class="card">
            <h2>Utilization</h2>
            <div class="grid">
                <div class="metric">
                    <div class="metric-value">{{ robot_utilization }}%</div>
                    <div class="metric-label">Robot Utilization</div>
                </div>
                <div class="metric">
                    <div class="metric-value">{{ station_utilization }}%</div>
                    <div class="metric-label">Station Utilization</div>
                </div>
                <div class="metric">
                    <div class="metric-value">{{ p95_cycle_time_s }}s</div>
                    <div class="metric-label">P95 Cycle Time</div>
                </div>
                <div class="metric">
                    <div class="metric-value">{{ orders_late }}</div>
                    <div class="metric-label">Late Orders</div>
                </div>
            </div>
        </div>

        {% if has_sla %}
        <div class="card">
            <h2>SLA Performance</h2>
            <div class="grid">
                <div class="metric">
                    <div class="metric-value status-good">{{ sla_on_time }}</div>
                    <div class="metric-label">On-Time Orders</div>
                </div>
                <div class="metric">
                    <div class="metric-value status-bad">{{ sla_late }}</div>
                    <div class="metric-label">Late Orders</div>
                </div>
                <div class="metric">
                    <div class="metric-value">{{ sla_miss_rate }}%</div>
                    <div class="metric-label">SLA Miss Rate</div>
                </div>
                <div class="metric">
                    <div class="metric-value">{{ sla_avg_lateness }}s</div>
                    <div class="metric-label">Avg Lateness</div>
                </div>
            </div>
        </div>
        {% endif %}

        {% if has_congestion %}
        <div class="card">
            <h2>Congestion</h2>
            <div class="grid">
                <div class="metric">
                    <div class="metric-value">{{ congestion_node_events }}</div>
                    <div class="metric-label">Node Wait Events</div>
                </div>
                <div class="metric">
                    <div class="metric-value">{{ congestion_edge_events }}</div>
                    <div class="metric-label">Edge Wait Events</div>
                </div>
                <div class="metric">
                    <div class="metric-value">{{ congestion_node_time }}s</div>
                    <div class="metric-label">Total Node Wait</div>
                </div>
                <div class="metric">
                    <div class="metric-value">{{ congestion_edge_time }}s</div>
                    <div class="metric-label">Total Edge Wait</div>
                </div>
            </div>
        </div>
        {% endif %}

        {% if has_robot_chart %}
        <div class="card">
            <h2>Robot Utilization Chart</h2>
            <div class="chart-container">
                <canvas id="robotChart"></canvas>
            </div>
        </div>
        {% endif %}

        {% if has_station_chart %}
        <div class="card">
            <h2>Station Utilization Chart</h2>
            <div class="chart-container">
                <canvas id="stationChart"></canvas>
            </div>
        </div>
        {% endif %}

        {% if has_robots %}
        <div class="card">
            <h2>Per-Robot Performance</h2>
            <table>
                <thead>
                    <tr>
                        <th>Robot</th>
                        <th>Tasks</th>
                        <th>Distance (m)</th>
                        <th>Utilization</th>
                        <th>Failures</th>
                    </tr>
                </thead>
                <tbody>
                {% for robot in robots %}
                    <tr>
                        <td>Robot {{ robot.id }}</td>
                        <td>{{ robot.tasks }}</td>
                        <td>{{ robot.distance }}</td>
                        <td>{{ robot.utilization }}%</td>
                        <td>{{ robot.failures }}</td>
                    </tr>
                {% endfor %}
                </tbody>
            </table>
        </div>
        {% endif %}

        {% if has_stations %}
        <div class="card">
            <h2>Per-Station Performance</h2>
            <table>
                <thead>
                    <tr>
                        <th>Station</th>
                        <th>Type</th>
                        <th>Orders Served</th>
                        <th>Avg Queue</th>
                        <th>Utilization</th>
                    </tr>
                </thead>
                <tbody>
                {% for station in stations %}
                    <tr>
                        <td>{{ station.id }}</td>
                        <td>{{ station.type }}</td>
                        <td>{{ station.served }}</td>
                        <td>{{ station.avg_queue }}</td>
                        <td>{{ station.utilization }}%</td>
                    </tr>
                {% endfor %}
                </tbody>
            </table>
        </div>
        {% endif %}

        <footer>
            Generated by Waremax Simulation Engine
        </footer>
    </div>

    <script>
    {% if has_robot_chart %}
    new Chart(document.getElementById('robotChart'), {
        type: 'bar',
        data: {
            labels: {{ robot_chart_labels | safe }},
            datasets: [{
                label: 'Utilization %',
                data: {{ robot_chart_data | safe }},
                backgroundColor: 'rgba(52, 152, 219, 0.7)',
                borderColor: 'rgba(52, 152, 219, 1)',
                borderWidth: 1
            }]
        },
        options: {
            responsive: true,
            maintainAspectRatio: false,
            scales: { y: { beginAtZero: true, max: 100 } }
        }
    });
    {% endif %}

    {% if has_station_chart %}
    new Chart(document.getElementById('stationChart'), {
        type: 'bar',
        data: {
            labels: {{ station_chart_labels | safe }},
            datasets: [{
                label: 'Utilization %',
                data: {{ station_chart_data | safe }},
                backgroundColor: 'rgba(46, 204, 113, 0.7)',
                borderColor: 'rgba(46, 204, 113, 1)',
                borderWidth: 1
            }]
        },
        options: {
            responsive: true,
            maintainAspectRatio: false,
            scales: { y: { beginAtZero: true, max: 100 } }
        }
    });
    {% endif %}
    </script>
</body>
</html>
"##;

} // verus!
